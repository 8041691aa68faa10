//! The lists of the Font dialog, narrowed by what the user types above
//! them.

use vstd::prelude::*;

use crate::message::{all_fonts, all_styles, font_label, style_label, FontChoice, FontStyleChoice};
use crate::search::{find_from, matches_at};
use crate::strings::starts_with_chars;
use crate::text::chars_of;
use crate::unicode::{lowercase_text, str_to_lowercase};

verus! {

broadcast use vstd::string::group_string_axioms;

/// `needle` occurs somewhere in `hay`.
pub open spec fn contains(hay: Seq<char>, needle: Seq<char>) -> bool {
    exists|i: int| matches_at(hay, needle, i)
}

/// Whether `needle` occurs in `hay`.
pub fn contains_chars(hay: &[char], needle: &[char]) -> (r: bool)
    ensures
        r == contains(hay@, needle@),
{
    match find_from(hay, needle, 0, hay.len()) {
        Some(_) => true,
        None => {
            assert forall|i: int| !matches_at(hay@, needle@, i) by {}
            false
        },
    }
}

/// A name stays in a list whose filter is `filter` when the filter, lower
/// case, is empty or occurs in the name, lower case.
pub open spec fn passes_filter(name: Seq<char>, filter: Seq<char>) -> bool {
    lowercase_text(filter).len() == 0 || contains(lowercase_text(name), lowercase_text(filter))
}

fn name_passes(name: &str, filter_lower: &[char]) -> (r: bool)
    ensures
        r == (filter_lower@.len() == 0 || contains(lowercase_text(name@), filter_lower@)),
{
    if filter_lower.len() == 0 {
        return true;
    }
    let lower = str_to_lowercase(name);
    contains_chars(chars_of(lower.as_str()).as_slice(), filter_lower)
}

/// The font families listed for `filter`, in list order.
pub fn font_family_items(filter: &str) -> (r: Vec<FontChoice>)
    ensures
        r@ == all_fonts().filter(|f: FontChoice| passes_filter(font_label(f), filter@)),
{
    let lower = str_to_lowercase(filter);
    let filter_lower = chars_of(lower.as_str());
    let all = FontChoice::all();
    let ghost pred = |f: FontChoice| passes_filter(font_label(f), filter@);
    let mut out: Vec<FontChoice> = Vec::new();
    let mut i: usize = 0;
    while i < all.len()
        invariant
            i <= all@.len(),
            all@ == all_fonts(),
            filter_lower@ == lowercase_text(filter@),
            pred == (|f: FontChoice| passes_filter(font_label(f), filter@)),
            out@ == all@.take(i as int).filter(pred),
        decreases all@.len() - i,
    {
        reveal_with_fuel(Seq::<_>::filter, 1);
        let f = all[i];
        if name_passes(f.label(), filter_lower.as_slice()) {
            out.push(f);
        }
        assert(all@.take(i + 1).drop_last() =~= all@.take(i as int));
        i = i + 1;
    }
    assert(all@.take(all@.len() as int) =~= all@);
    out
}

/// The font styles listed for `filter`, in list order.
pub fn font_style_items(filter: &str) -> (r: Vec<FontStyleChoice>)
    ensures
        r@ == all_styles().filter(|s: FontStyleChoice| passes_filter(style_label(s), filter@)),
{
    let lower = str_to_lowercase(filter);
    let filter_lower = chars_of(lower.as_str());
    let all = FontStyleChoice::all();
    let ghost pred = |s: FontStyleChoice| passes_filter(style_label(s), filter@);
    let mut out: Vec<FontStyleChoice> = Vec::new();
    let mut i: usize = 0;
    while i < all.len()
        invariant
            i <= all@.len(),
            all@ == all_styles(),
            filter_lower@ == lowercase_text(filter@),
            pred == (|s: FontStyleChoice| passes_filter(style_label(s), filter@)),
            out@ == all@.take(i as int).filter(pred),
        decreases all@.len() - i,
    {
        reveal_with_fuel(Seq::<_>::filter, 1);
        let f = all[i];
        if name_passes(f.label(), filter_lower.as_slice()) {
            out.push(f);
        }
        assert(all@.take(i + 1).drop_last() =~= all@.take(i as int));
        i = i + 1;
    }
    assert(all@.take(all@.len() as int) =~= all@);
    out
}

/// The font sizes the dialog offers.
pub open spec fn font_sizes() -> Seq<Seq<char>> {
    seq![
        "8"@, "9"@, "10"@, "11"@, "12"@, "14"@, "16"@, "18"@, "20"@, "22"@, "24"@, "26"@, "28"@,
        "36"@, "48"@, "72"@,
    ]
}

/// A size stays in the list when the size text is empty or a prefix of it.
pub open spec fn size_passes(size: Seq<char>, size_text: Seq<char>) -> bool {
    size_text.len() == 0 || (size_text.len() <= size.len() && size.take(size_text.len() as int) == size_text)
}

/// The font sizes listed for the size text `size_text`, in list order.
pub fn font_size_items(size_text: &str) -> (r: Vec<&'static str>)
    ensures
        r@.map_values(|s: &'static str| s@) == font_sizes().filter(|s: Seq<char>| size_passes(s, size_text@)),
{
    let all: Vec<&'static str> = vec![
        "8", "9", "10", "11", "12", "14", "16", "18", "20", "22", "24", "26", "28", "36", "48", "72",
    ];
    let ghost views = all@.map_values(|s: &'static str| s@);
    assert(views =~= font_sizes());
    let text = chars_of(size_text);
    let ghost pred = |s: Seq<char>| size_passes(s, size_text@);
    let mut out: Vec<&'static str> = Vec::new();
    let mut i: usize = 0;
    while i < all.len()
        invariant
            i <= all@.len(),
            views == all@.map_values(|s: &'static str| s@),
            views == font_sizes(),
            text@ == size_text@,
            pred == (|s: Seq<char>| size_passes(s, size_text@)),
            out@.map_values(|s: &'static str| s@) == views.take(i as int).filter(pred),
        decreases all@.len() - i,
    {
        reveal_with_fuel(Seq::<_>::filter, 1);
        let s = all[i];
        let keep = text.len() == 0 || starts_with_chars(chars_of(s).as_slice(), text.as_slice());
        let ghost before = out@;
        if keep {
            out.push(s);
            assert(out@.map_values(|s: &'static str| s@) =~= before.map_values(|s: &'static str| s@).push(s@));
        }
        assert(views.take(i + 1).drop_last() =~= views.take(i as int));
        assert(views.take(i + 1).last() == s@);
        i = i + 1;
    }
    assert(views.take(all@.len() as int) =~= views);
    out
}

} // verus!
