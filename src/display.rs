//! Fitting names into fixed-width columns.
use vstd::prelude::*;

use crate::text::{chars_of, push_char, string_of, take_chars};

verus! {

/// `n` spaces.
pub open spec fn spaces(n: nat) -> Seq<char>
    decreases n,
{
    if n == 0 {
        Seq::empty()
    } else {
        spaces((n - 1) as nat).push(' ')
    }
}

/// `t` padded with spaces on the right to `width` characters.
pub open spec fn padded(t: Seq<char>, width: nat) -> Seq<char> {
    if t.len() < width {
        t + spaces((width - t.len()) as nat)
    } else {
        t
    }
}

fn pad_to(t: &mut String, width: usize)
    ensures
        final(t)@ == padded(old(t)@, width as nat),
{
    let n = chars_of(t.as_str()).len();
    let ghost start = t@;
    let mut k: usize = n;
    while k < width
        invariant
            n == start.len(),
            n <= k <= width || (k == n && n >= width),
            t@ == start + spaces((k - n) as nat),
        decreases width - k,
    {
        push_char(t, ' ');
        k = k + 1;
        assert(t@ =~= start + spaces((k - n) as nat));
    }
    if n >= width {
        assert(t@ =~= start);
    }
}

/// `s` fitted to `max_len` characters: padded when it fits, else cut to
/// leave room for "..." and then padded.
pub open spec fn truncated_text(s: Seq<char>, max_len: nat) -> Seq<char> {
    if s.len() <= max_len {
        padded(s, max_len)
    } else {
        let keep: nat = if max_len >= 3 { (max_len - 3) as nat } else { 0 };
        padded(s.subrange(0, keep as int) + "..."@, max_len)
    }
}

/// Fits `s` into a column of `max_len` characters.
pub fn truncate_with_ellipsis(s: &str, max_len: usize) -> (r: String)
    ensures
        r@ == truncated_text(s@, max_len as nat),
{
    let cs = chars_of(s);
    if cs.len() <= max_len {
        let mut r = String::from_str(s);
        pad_to(&mut r, max_len);
        r
    } else {
        let keep: usize = if max_len >= 3 { max_len - 3 } else { 0 };
        let mut r = string_of(&take_chars(&cs, keep));
        r.append("...");
        pad_to(&mut r, max_len);
        r
    }
}

/// A package name with its source label fitted to `total_width` characters:
/// padded when both fit, else the name is cut before "..." so that the label
/// stays whole.
pub open spec fn package_name_text(name: Seq<char>, label: Seq<char>, total_width: nat) -> Seq<
    char,
> {
    if name.len() + label.len() <= total_width {
        padded(name + label, total_width)
    } else {
        let avail: int = total_width - label.len() - 3;
        let keep: int = if avail < 0 {
            0
        } else if avail > name.len() {
            name.len() as int
        } else {
            avail
        };
        padded(name.subrange(0, keep) + "..."@ + label, total_width)
    }
}

/// Fits a package name and its source label into a column.
pub fn format_package_name(name: &str, source_label: &str, total_width: usize) -> (r: String)
    ensures
        r@ == package_name_text(name@, source_label@, total_width as nat),
{
    let n = chars_of(name);
    let l = chars_of(source_label);
    if n.len() <= total_width && l.len() <= total_width - n.len() {
        let mut r = String::from_str(name);
        r.append(source_label);
        pad_to(&mut r, total_width);
        r
    } else {
        let after_label: usize = if total_width >= l.len() { total_width - l.len() } else { 0 };
        let avail: usize = if after_label >= 3 { after_label - 3 } else { 0 };
        let keep: usize = if avail > n.len() { n.len() } else { avail };
        let mut r = string_of(&take_chars(&n, keep));
        r.append("...");
        r.append(source_label);
        pad_to(&mut r, total_width);
        r
    }
}

} // verus!
