//! Finding the named parameters in the text of a statement.

use vstd::prelude::*;
use crate::data_layer::text::characters;

verus! {

/// Whether a character can stand in the name of a parameter: a letter of
/// the Latin alphabet, a digit or an underscore.
pub open spec fn is_name_char(c: char) -> bool {
    ('a' <= c && c <= 'z') || ('A' <= c && c <= 'Z') || ('0' <= c && c <= '9') || c == '_'
}

/// Where the run of name characters that starts at `from` ends.
pub open spec fn name_end(text: Seq<char>, from: int) -> int
    decreases text.len() - from,
{
    if 0 <= from < text.len() && is_name_char(text[from]) {
        name_end(text, from + 1)
    } else {
        from
    }
}

/// The named parameters in `text` from the place `from` on, in their order:
/// each is a colon with the longest run of name characters behind it, and a
/// colon with no name character behind it is none.
pub open spec fn parameters_from(text: Seq<char>, from: int) -> Seq<Seq<char>>
    decreases text.len() - from,
{
    if from < 0 || from >= text.len() {
        Seq::empty()
    } else if text[from] == ':' && name_end(text, from + 1) > from + 1 {
        seq![text.subrange(from, name_end(text, from + 1))] + parameters_from(text, from + 1)
    } else {
        parameters_from(text, from + 1)
    }
}

/// The named parameters in the text of a statement, in their order.
pub open spec fn named_parameters(text: Seq<char>) -> Seq<Seq<char>> {
    parameters_from(text, 0)
}

/// Whether a character can stand in the name of a parameter.
pub fn name_char(c: char) -> (b: bool)
    ensures
        b == is_name_char(c),
{
    ('a' <= c && c <= 'z') || ('A' <= c && c <= 'Z') || ('0' <= c && c <= '9') || c == '_'
}

/// Finds the named parameters in the text of a statement.
pub fn scan_parameters(text: &str) -> (found: Vec<String>)
    ensures
        found@.map_values(|p: String| p@) == named_parameters(text@),
{
    let chars = characters(text);
    let n = chars.len();
    let mut found: Vec<String> = Vec::new();
    let mut i: usize = 0;
    proof {
        assert(found@.map_values(|p: String| p@) + parameters_from(text@, 0)
            =~= named_parameters(text@));
    }
    while i < n
        invariant
            i <= n,
            n == chars.len(),
            chars@ == text@,
            found@.map_values(|p: String| p@) + parameters_from(text@, i as int)
                == named_parameters(text@),
        decreases n - i,
    {
        if chars[i] == ':' {
            let mut j: usize = i + 1;
            while j < n && name_char(chars[j])
                invariant
                    i + 1 <= j <= n,
                    n == chars.len(),
                    chars@ == text@,
                    name_end(text@, i + 1) == name_end(text@, j as int),
                decreases n - j,
            {
                j += 1;
            }
            if j > i + 1 {
                let name = text.substring_char(i, j);
                let ghost before = found@.map_values(|p: String| p@);
                found.push(name.to_owned());
                proof {
                    assert(found@.map_values(|p: String| p@) =~= before.push(
                        text@.subrange(i as int, j as int),
                    ));
                    assert(before.push(text@.subrange(i as int, j as int)) + parameters_from(
                        text@,
                        i + 1,
                    ) =~= before + (seq![text@.subrange(i as int, j as int)] + parameters_from(
                        text@,
                        i + 1,
                    )));
                }
            }
            i += 1;
        } else {
            i += 1;
        }
    }
    proof {
        assert(found@.map_values(|p: String| p@) + Seq::<Seq<char>>::empty()
            =~= found@.map_values(|p: String| p@));
    }
    found
}

} // verus!
