use libkernel::driver::DeviceDriver;

struct NullDriver;

impl DeviceDriver for NullDriver {
    fn compatible(&self) -> &'static str {
        "null"
    }
}

#[test]
fn default_init_succeeds() {
    let d = NullDriver;
    assert_eq!(d.init(), Ok(()));
    assert_eq!(d.compatible(), "null");
}
