use vstd::prelude::*;
use vstd::utf8::encode_utf8;

use crate::error::ScanError;

verus! {

/// What the recognised text of a title card leaves to pick from.
#[derive(Debug)]
pub enum TextChoice {
    /// A single line: it is the title.
    Single(String),
    /// Several lines, in detector order: the caller picks one.
    Ambiguous(Vec<String>),
}

/// A recognised line is kept when its UTF-8 encoding is longer than one byte.
pub open spec fn long_enough(s: Seq<char>) -> bool {
    encode_utf8(s).len() > 1
}

/// The lines that text extraction recognised and that are long enough, in order.
pub open spec fn kept_lines(lines: Seq<Option<String>>) -> Seq<Seq<char>>
    decreases lines.len(),
{
    if lines.len() == 0 {
        Seq::empty()
    } else {
        let rest = kept_lines(lines.drop_last());
        match lines.last() {
            Some(s) => if long_enough(s@) {
                rest.push(s@)
            } else {
                rest
            },
            None => rest,
        }
    }
}

/// The views of a sequence of strings.
pub open spec fn views(v: Seq<String>) -> Seq<Seq<char>> {
    v.map_values(|s: String| s@)
}

/// Keeps the recognised lines that are longer than one byte, in order.
pub fn keep_lines(lines: &Vec<Option<String>>) -> (r: Vec<String>)
    ensures
        views(r@) == kept_lines(lines@),
{
    let mut kept: Vec<String> = Vec::new();
    let mut i: usize = 0;
    while i < lines.len()
        invariant
            i <= lines@.len(),
            views(kept@) =~= kept_lines(lines@.subrange(0, i as int)),
        decreases lines.len() - i,
    {
        proof {
            assert(lines@.subrange(0, i + 1).drop_last() =~= lines@.subrange(0, i as int));
            assert(lines@.subrange(0, i + 1).last() == lines@[i as int]);
        }
        let ghost before = kept@;
        match &lines[i] {
            Some(s) => {
                let n = s.as_str().as_bytes().len();
                if n > 1 {
                    kept.push(s.clone());
                    assert(kept@ =~= before.push(*s));
                    assert(views(kept@) =~= views(before).push(s@));
                }
            },
            None => {},
        }
        i = i + 1;
    }
    assert(lines@.subrange(0, lines@.len() as int) =~= lines@);
    kept
}

/// Applies the policy on recognised lines: none is an error, one is the title,
/// several are handed back for the caller to choose from.
pub fn choose_text(lines: &Vec<Option<String>>) -> (r: Result<TextChoice, ScanError>)
    ensures
        kept_lines(lines@).len() == 0 <==> r == Err::<TextChoice, ScanError>(
            ScanError::NoTextDetected,
        ),
        kept_lines(lines@).len() == 1 ==> (r matches Ok(TextChoice::Single(s)) && s@ == kept_lines(
            lines@,
        )[0]),
        kept_lines(lines@).len() > 1 ==> (r matches Ok(TextChoice::Ambiguous(v)) && views(v@)
            == kept_lines(lines@)),
{
    let mut kept = keep_lines(lines);
    if kept.len() == 0 {
        Err(ScanError::NoTextDetected)
    } else if kept.len() == 1 {
        let s = kept.pop().unwrap();
        Ok(TextChoice::Single(s))
    } else {
        Ok(TextChoice::Ambiguous(kept))
    }
}

impl TextChoice {
    /// The chosen line when there is one; otherwise the first of the options,
    /// for callers that cannot ask.
    pub fn first(&self) -> (r: Option<String>)
        ensures
            self matches TextChoice::Single(s) ==> r == Some(*s),
            self matches TextChoice::Ambiguous(v) ==> (v@.len() == 0 ==> r.is_none()) && (
            v@.len() > 0 ==> r == Some(v@[0])),
    {
        match self {
            TextChoice::Single(s) => Some(s.clone()),
            TextChoice::Ambiguous(v) => {
                if v.len() == 0 {
                    None
                } else {
                    Some(v[0].clone())
                }
            },
        }
    }
}

} // verus!
