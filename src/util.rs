use vstd::prelude::*;
use crate::record::has_prefix;

verus! {

/// Drops a leading `r#` from an identifier's text, as when a raw identifier
/// is written as a string.
pub fn strip_leading_rawlit(s: &str) -> (r: String)
    ensures
        r@ == (if s@.len() >= 2 && s@[0] == 'r' && s@[1] == '#' {
            s@.skip(2)
        } else {
            s@
        }),
{
    proof {
        reveal_strlit("r#");
    }
    let starts = has_prefix(s, "r#");
    assert(starts == (s@.len() >= 2 && s@[0] == 'r' && s@[1] == '#')) by {
        if s@.len() >= 2 {
            assert(s@.subrange(0, 2)[0] == s@[0]);
            assert(s@.subrange(0, 2)[1] == s@[1]);
            if s@[0] == 'r' && s@[1] == '#' {
                assert(s@.subrange(0, 2) =~= "r#"@);
            }
        }
    }
    if starts {
        String::from_str(s.substring_char(2, s.unicode_len()))
    } else {
        String::from_str(s)
    }
}

/// Path segments written with `::` between them.
pub open spec fn path_text(segments: Seq<Seq<char>>) -> Seq<char>
    decreases segments.len(),
{
    if segments.len() == 0 {
        Seq::empty()
    } else if segments.len() == 1 {
        segments[0]
    } else {
        path_text(segments.drop_last()) + "::"@ + segments.last()
    }
}

pub open spec fn strings_view(v: Seq<String>) -> Seq<Seq<char>> {
    v.map_values(|x: String| x@)
}

/// Joins the segments of a type path with `::`.
pub fn join_path(segments: &Vec<String>) -> (r: String)
    ensures
        r@ == path_text(strings_view(segments@)),
{
    let mut out = String::new();
    let mut i: usize = 0;
    while i < segments.len()
        invariant
            i <= segments@.len(),
            out@ == path_text(strings_view(segments@.subrange(0, i as int))),
        decreases segments@.len() - i,
    {
        assert(strings_view(segments@.subrange(0, i + 1)).drop_last() =~= strings_view(
            segments@.subrange(0, i as int),
        ));
        if i == 0 {
            assert(path_text(strings_view(segments@.subrange(0, 0))) =~= Seq::<char>::empty());
            out.append(segments[i].as_str());
            assert(out@ =~= path_text(strings_view(segments@.subrange(0, 1))));
        } else {
            out.append("::");
            out.append(segments[i].as_str());
        }
        i = i + 1;
    }
    assert(segments@.subrange(0, i as int) =~= segments@);
    out
}

/// Whether a type path, given by its segments, is written as one of `signatures`.
pub fn signature_matches(segments: &Vec<String>, signatures: &Vec<String>) -> (r: bool)
    ensures
        r == exists|j: int|
            0 <= j < signatures@.len() && #[trigger] signatures@[j]@ == path_text(
                strings_view(segments@),
            ),
{
    let path = join_path(segments);
    let mut j: usize = 0;
    while j < signatures.len()
        invariant
            j <= signatures@.len(),
            path@ == path_text(strings_view(segments@)),
            forall|k: int| 0 <= k < j ==> #[trigger] signatures@[k]@ != path@,
        decreases signatures@.len() - j,
    {
        if signatures[j] == path {
            return true;
        }
        j = j + 1;
    }
    false
}

} // verus!
