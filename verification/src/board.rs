//! Board identification.
use vstd::prelude::*;

verus! {

/// The board a kernel image is built for, as chosen by its build features.
pub open spec fn board_name_spec(rpi3: bool, rpi4: bool) -> Seq<char> {
    if rpi3 {
        "Raspberry Pi 3"@
    } else if rpi4 {
        "Raspberry Pi 4"@
    } else {
        "Unknown"@
    }
}

/// Board identification: `rpi3` and `rpi4` tell which board features the build enables;
/// the Raspberry Pi 3 wins when both are set.
pub fn board_name(rpi3: bool, rpi4: bool) -> (name: &'static str)
    ensures
        name@ == board_name_spec(rpi3, rpi4),
{
    if rpi3 {
        "Raspberry Pi 3"
    } else if rpi4 {
        "Raspberry Pi 4"
    } else {
        "Unknown"
    }
}

/// The board name follows the build features: the Raspberry Pi 3 when its feature is set
/// (whatever the other), the Raspberry Pi 4 when only its feature is set, unknown otherwise;
/// a known board's name ends in its number.
pub proof fn lemma_board_names(rpi4: bool)
    ensures
        board_name_spec(true, rpi4) == "Raspberry Pi 3"@,
        board_name_spec(false, true) == "Raspberry Pi 4"@,
        board_name_spec(false, false) == "Unknown"@,
        board_name_spec(true, rpi4).last() == '3',
        board_name_spec(false, true).last() == '4',
{
    reveal_strlit("Raspberry Pi 3");
    reveal_strlit("Raspberry Pi 4");
}

} // verus!
