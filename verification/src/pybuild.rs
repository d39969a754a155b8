//! Rendering of Python source fragments for the generated setup script.

use crate::text::push_char;
use vstd::prelude::*;
use vstd::string::StringExecFns;

verus! {

/// One rendered list entry: four spaces, the quoted item, a comma and a
/// newline.
pub open spec fn py_item_str(s: Seq<char>) -> Seq<char> {
    seq![' ', ' ', ' ', ' ', '"'] + s + seq!['"', ',', '\n']
}

pub open spec fn py_items_str(items: Seq<Seq<char>>) -> Seq<char>
    decreases items.len(),
{
    if items.len() == 0 {
        Seq::<char>::empty()
    } else {
        py_items_str(items.drop_last()) + py_item_str(items.last())
    }
}

/// The rendering of a Python list of strings: one quoted item per line
/// between brackets.
pub open spec fn py_list_str(items: Seq<Seq<char>>) -> Seq<char> {
    seq!['[', '\n'] + py_items_str(items) + seq![']']
}

pub open spec fn string_views(items: Seq<String>) -> Seq<Seq<char>> {
    items.map_values(|s: String| s@)
}

/// Serializes to a Python list of strings.
pub fn serialize_py_list(items: &[String]) -> (r: String)
    ensures
        r@ == py_list_str(string_views(items@)),
{
    let mut out = String::new();
    push_char(&mut out, '[');
    push_char(&mut out, '\n');
    let n = items.len();
    let mut i: usize = 0;
    while i < n
        invariant
            0 <= i <= n,
            n == items@.len(),
            out@ == seq!['[', '\n'] + py_items_str(string_views(items@.subrange(0, i as int))),
        decreases n - i,
    {
        push_char(&mut out, ' ');
        push_char(&mut out, ' ');
        push_char(&mut out, ' ');
        push_char(&mut out, ' ');
        push_char(&mut out, '"');
        out.append(items[i].as_str());
        push_char(&mut out, '"');
        push_char(&mut out, ',');
        push_char(&mut out, '\n');
        proof {
            let pre = string_views(items@.subrange(0, i as int));
            let cur = string_views(items@.subrange(0, i + 1));
            assert(cur.drop_last() =~= pre);
            assert(cur.last() == items@[i as int]@);
            assert(out@ =~= seq!['[', '\n'] + py_items_str(cur));
        }
        i += 1;
    }
    push_char(&mut out, ']');
    proof {
        assert(items@.subrange(0, n as int) =~= items@);
        assert(out@ =~= py_list_str(string_views(items@)));
    }
    out
}

} // verus!
