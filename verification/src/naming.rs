//! Derives the output file name for a transformed firmware image: an
//! `encrypted` or `decrypted` marker is inserted before the input path's
//! final extension; a path without an extension is kept as it is.
use vstd::prelude::*;

verus! {

/// Index of the last occurrence of `c` in `s` at or before position `i`,
/// or -1 when there is none.
pub open spec fn last_at_or_before(s: Seq<char>, c: char, i: int) -> int
    decreases i + 1,
{
    if i < 0 {
        -1
    } else if 0 <= i < s.len() && s[i] == c {
        i
    } else {
        last_at_or_before(s, c, i - 1)
    }
}

/// The marker spelled into the output name.
pub open spec fn marker(encrypt: bool) -> Seq<char> {
    if encrypt {
        seq!['e', 'n', 'c', 'r', 'y', 'p', 't', 'e', 'd']
    } else {
        seq!['d', 'e', 'c', 'r', 'y', 'p', 't', 'e', 'd']
    }
}

/// The path `s` has an extension: its file name (the part after the last
/// `/`) holds a `.` later than its first character. A name whose only `.`
/// is its leading character (a hidden file) has no extension.
pub open spec fn has_extension(s: Seq<char>) -> bool {
    last_at_or_before(s, '.', s.len() - 1) > last_at_or_before(s, '/', s.len() - 1) + 1
}

/// The output name: with an extension, the marker is inserted between the
/// stem and the final extension; without one, the path is unchanged.
pub open spec fn spec_make_output_name(s: Seq<char>, encrypt: bool) -> Seq<char> {
    let dot = last_at_or_before(s, '.', s.len() - 1);
    if has_extension(s) {
        s.subrange(0, dot) + seq!['.'] + marker(encrypt) + seq!['.'] + s.subrange(
            dot + 1,
            s.len() as int,
        )
    } else {
        s
    }
}

/// Derives the output path for the transformed image from the input path and
/// the direction of the transform.
pub fn make_output_name(input: &str, encrypt: bool) -> (r: Option<String>)
    ensures
        r matches Some(out) && out@ == spec_make_output_name(input@, encrypt),
{
    let len = input.unicode_len();
    let mut has_dot: bool = false;
    let mut dot_idx: usize = 0;
    let mut has_slash: bool = false;
    let mut slash_idx: usize = 0;
    let mut i: usize = 0;
    while i < len
        invariant
            i <= len,
            len == input@.len(),
            (if has_dot {
                has_dot && dot_idx < i && last_at_or_before(input@, '.', i - 1) == dot_idx
            } else {
                last_at_or_before(input@, '.', i - 1) == -1
            }),
            (if has_slash {
                has_slash && slash_idx < i && last_at_or_before(input@, '/', i - 1) == slash_idx
            } else {
                last_at_or_before(input@, '/', i - 1) == -1
            }),
        decreases len - i,
    {
        let c = input.get_char(i);
        if c == '.' {
            has_dot = true;
            dot_idx = i;
        } else if c == '/' {
            has_slash = true;
            slash_idx = i;
        }
        i = i + 1;
    }
    let extension_found = has_dot && (if has_slash {
        dot_idx > slash_idx + 1
    } else {
        dot_idx > 0
    });
    if extension_found {
        let stem = input.substring_char(0, dot_idx);
        let ext = input.substring_char(dot_idx + 1, len);
        let mut out = String::from_str(stem);
        out.append(".");
        out.append(if encrypt { "encrypted" } else { "decrypted" });
        out.append(".");
        out.append(ext);
        proof {
            reveal_strlit(".");
            reveal_strlit("encrypted");
            reveal_strlit("decrypted");
            assert(marker(encrypt) =~= (if encrypt { "encrypted"@ } else { "decrypted"@ }));
            assert(out@ =~= spec_make_output_name(input@, encrypt));
        }
        Some(out)
    } else {
        let out = input.to_owned();
        Some(out)
    }
}

} // verus!
