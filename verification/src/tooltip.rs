//! The tooltip of a tray icon.

use vstd::prelude::*;

use crate::system::{NotifyIconData, NotifyView, TIP_UNITS};
use crate::wide::encode_wide;

verus! {

/// How many code units of a tooltip are kept. One place is left for the
/// terminating zero.
pub open spec fn tip_length(units: Seq<u16>) -> nat {
    if units.len() < TIP_UNITS {
        units.len()
    } else {
        (TIP_UNITS - 1) as nat
    }
}

/// What the shell shows as a tooltip: the text in UTF-16, cut where it is too
/// long, and zeros after it.
pub open spec fn tip_of(tooltip: Option<Seq<char>>) -> Seq<u16> {
    let units = match tooltip {
        Some(text) => crate::wide::utf16(text),
        None => Seq::empty(),
    };
    Seq::new(
        TIP_UNITS as nat,
        |i: int|
            if i < tip_length(units) {
                units[i]
            } else {
                0
            },
    )
}

/// A tooltip as a sequence of characters.
pub open spec fn tooltip_view(tooltip: Option<&str>) -> Option<Seq<char>> {
    match tooltip {
        Some(text) => Some(text@),
        None => None,
    }
}

/// Puts a tooltip in the place of the one before.
pub fn write_tooltip(nid: &mut NotifyIconData, tooltip: Option<&str>)
    ensures
        final(nid)@ == (NotifyView { tip: tip_of(tooltip_view(tooltip)), ..old(nid)@ }),
{
    let mut tip: [u16; 128] = [0u16; 128];
    if let Some(text) = tooltip {
        let units: Vec<u16> = encode_wide(text);
        let length: usize = if units.len() < TIP_UNITS {
            units.len()
        } else {
            TIP_UNITS - 1
        };
        let mut i: usize = 0;
        while i < length
            invariant
                i <= length < 128,
                length <= units.len(),
                tip@.len() == 128,
                forall|j: int| 0 <= j < i ==> tip@[j] == units@[j],
                forall|j: int| i <= j < 128 ==> tip@[j] == 0,
            decreases length - i,
        {
            tip[i] = units[i];
            i = i + 1;
        }
    }
    nid.tip = tip;
    assert(nid.tip@ =~= tip_of(tooltip_view(tooltip)));
}

/// The tooltip always ends in a zero, and nothing but zeros comes after the text.
pub proof fn law_tooltip_terminated(tooltip: Option<Seq<char>>)
    ensures
        tip_of(tooltip).len() == TIP_UNITS,
        tip_of(tooltip).len() == 128,
        tip_of(tooltip).last() == 0,
        tooltip is None ==> forall|i: int| 0 <= i < TIP_UNITS ==> tip_of(tooltip)[i] == 0,
        tooltip matches Some(text) ==> forall|i: int|
            crate::wide::utf16(text).len() <= i < TIP_UNITS ==> tip_of(tooltip)[i] == 0,
{
}

/// The tooltip starts with the text, and holds all of it where there is room.
pub proof fn law_tooltip_starts_with_text(text: Seq<char>)
    ensures
        forall|i: int|
            0 <= i < TIP_UNITS - 1 && i < crate::wide::utf16(text).len() ==> #[trigger] tip_of(
                Some(text),
            )[i] == crate::wide::utf16(text)[i],
        crate::wide::utf16(text).len() < TIP_UNITS ==> tip_of(Some(text)).take(
            crate::wide::wide(text).len() as int,
        ) == crate::wide::wide(text),
{
    if crate::wide::utf16(text).len() < TIP_UNITS {
        assert(tip_of(Some(text)).take(crate::wide::wide(text).len() as int) =~= crate::wide::wide(
            text,
        ));
    }
}

/// What is said of a tooltip is said of its text.
pub proof fn law_tooltip_keeps_its_text(text: &str)
    ensures
        tooltip_view(Some(text)) == Some(text@),
        tooltip_view(None) is None,
{
}

} // verus!
