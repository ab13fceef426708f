//! Helpers that render lists for the output files.

use vstd::prelude::*;
use vstd::string::*;
use std::fmt::Display;
use crate::event::ProcessId;

verus! {

/// The parts of `parts` in order, each followed by `end`.
pub open spec fn each_followed_by(parts: Seq<Seq<char>>, end: Seq<char>) -> Seq<char>
    decreases parts.len(),
{
    if parts.len() == 0 {
        Seq::empty()
    } else {
        each_followed_by(parts.drop_last(), end) + parts.last() + end
    }
}

/// The parts of `parts` in order, with `sep` between any two of them.
pub open spec fn joined_by(parts: Seq<Seq<char>>, sep: Seq<char>) -> Seq<char>
    decreases parts.len(),
{
    if parts.len() == 0 {
        Seq::empty()
    } else if parts.len() == 1 {
        parts[0]
    } else {
        joined_by(parts.drop_last(), sep) + sep + parts.last()
    }
}

/// `texts` holds, for each item of `items` in order, the text that the item
/// is displayed as.
pub open spec fn displayed_as<T: Display>(items: Seq<T>, texts: Seq<String>) -> bool {
    &&& texts.len() == items.len()
    &&& forall|i: int|
        0 <= i < items.len() ==> to_string_from_display_ensures::<T>(&items[i], #[trigger] texts[i])
}

/// The views of a sequence of strings.
pub open spec fn views(texts: Seq<String>) -> Seq<Seq<char>> {
    texts.map_values(|t: String| t@)
}

/// The items of `v` as displayed, each on a line of its own.
pub fn vec_to_one_item_per_line<T: Display>(v: &Vec<T>) -> (s: String)
    ensures
        exists|texts: Seq<String>|
            displayed_as(v@, texts) && s@ == each_followed_by(views(texts), "\n"@),
{
    let mut s: String = String::new();
    let ghost mut texts: Seq<String> = Seq::empty();
    let mut i: usize = 0;
    proof {
        assert(views(texts) =~= Seq::<Seq<char>>::empty());
    }
    while i < v.len()
        invariant
            i <= v.len(),
            displayed_as(v@.take(i as int), texts),
            s@ == each_followed_by(views(texts), "\n"@),
        decreases v.len() - i,
    {
        let text = v[i].to_string();
        s.append(text.as_str());
        s.append("\n");
        proof {
            let longer = texts.push(text);
            assert(views(longer).drop_last() =~= views(texts));
            assert(views(longer).last() == text@);
            assert(s@ =~= each_followed_by(views(longer), "\n"@));
            assert(v@.take(i + 1) =~= v@.take(i as int).push(v@[i as int]));
            assert forall|k: int| 0 <= k < i + 1 implies to_string_from_display_ensures::<T>(
                &v@.take(i + 1)[k],
                #[trigger] longer[k],
            ) by {
                if k < i {
                    assert(v@.take(i + 1)[k] == v@.take(i as int)[k]);
                    assert(longer[k] == texts[k]);
                }
            }
            texts = longer;
        }
        i += 1;
    }
    proof {
        assert(v@.take(i as int) =~= v@);
    }
    s
}

/// The ids of `v` as displayed, between square brackets and with commas but
/// no blanks between them. The list must not be empty.
pub fn vec_to_str_no_whitespace(v: Vec<ProcessId>) -> (s: String)
    requires
        v@.len() > 0,
    ensures
        exists|texts: Seq<String>|
            displayed_as(v@, texts) && s@ == "["@ + joined_by(views(texts), ","@) + "]"@,
{
    let mut s: String = "[".to_string();
    let ghost mut texts: Seq<String> = Seq::empty();
    let mut i: usize = 0;
    proof {
        assert(views(texts) =~= Seq::<Seq<char>>::empty());
        assert(s@ =~= "["@ + joined_by(views(texts), ","@));
    }
    while i < v.len()
        invariant
            i <= v.len(),
            displayed_as(v@.take(i as int), texts),
            s@ == "["@ + joined_by(views(texts), ","@),
        decreases v.len() - i,
    {
        let text = v[i].to_string();
        if i > 0 {
            s.append(",");
        }
        s.append(text.as_str());
        proof {
            let longer = texts.push(text);
            assert(views(longer).drop_last() =~= views(texts));
            assert(views(longer).last() == text@);
            assert(views(longer)[longer.len() - 1] == text@);
            assert(s@ =~= "["@ + joined_by(views(longer), ","@));
            assert(v@.take(i + 1) =~= v@.take(i as int).push(v@[i as int]));
            assert forall|k: int| 0 <= k < i + 1 implies to_string_from_display_ensures::<
                ProcessId,
            >(&v@.take(i + 1)[k], #[trigger] longer[k]) by {
                if k < i {
                    assert(v@.take(i + 1)[k] == v@.take(i as int)[k]);
                    assert(longer[k] == texts[k]);
                }
            }
            texts = longer;
        }
        i += 1;
    }
    s.append("]");
    proof {
        assert(v@.take(i as int) =~= v@);
    }
    s
}

} // verus!
