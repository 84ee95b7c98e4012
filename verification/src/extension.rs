//! File-name extensions: the characters after the final dot of a name, and
//! the fixed set of recognized recording formats, compared without regard
//! to ASCII case.

use vstd::prelude::*;

use crate::text::lemma_lower_idempotent;
use crate::text::lower;
use crate::text::lower_char;
use crate::text::lower_char_exec;

verus! {

/// Index just after the final `.` of `name`, if the name holds a dot at all.
pub open spec fn extension_start(name: Seq<char>) -> Option<int>
    decreases name.len(),
{
    if name.len() == 0 {
        None
    } else if name[name.len() - 1] == '.' {
        Some(name.len() as int)
    } else {
        extension_start(name.take(name.len() - 1))
    }
}

/// The extension of a file name: the characters after the final `.`, if the
/// name holds one. A name without a dot has no extension; a name ending in
/// a dot has the empty extension.
pub open spec fn extension_of(name: Seq<char>) -> Option<Seq<char>> {
    match extension_start(name) {
        Some(i) => Some(name.subrange(i, name.len() as int)),
        None => None,
    }
}

/// Whether `ext` names, up to ASCII case, one of the recognized recording
/// container formats: `mp4`, `wav`, `mp3`, `m4a`, `webm`, `ogg`.
pub open spec fn recognized_extension(ext: Seq<char>) -> bool {
    let l = lower(ext);
    ||| l == seq!['m', 'p', '4']
    ||| l == seq!['w', 'a', 'v']
    ||| l == seq!['m', 'p', '3']
    ||| l == seq!['m', '4', 'a']
    ||| l == seq!['w', 'e', 'b', 'm']
    ||| l == seq!['o', 'g', 'g']
}

/// Whether a file called `name` carries a recognized extension.
pub open spec fn name_has_recognized_extension(name: Seq<char>) -> bool {
    match extension_of(name) {
        Some(e) => recognized_extension(e),
        None => false,
    }
}

/// Extension matching ignores ASCII case: an extension is recognized
/// exactly when its ASCII-lowered form is.
pub proof fn lemma_recognized_case_insensitive(ext: Seq<char>)
    ensures
        recognized_extension(lower(ext)) == recognized_extension(ext),
{
    lemma_lower_idempotent(ext);
}

/// Position just after the final `.` of `name`, found by scanning backwards.
pub fn find_extension_start(name: &str) -> (r: Option<usize>)
    ensures
        match r {
            Some(i) => extension_start(name@) == Some(i as int) && i <= name@.len(),
            None => extension_start(name@) is None,
        },
{
    let n = name.unicode_len();
    let mut i: usize = n;
    proof {
        assert(name@.take(n as int) =~= name@);
    }
    while i > 0
        invariant
            0 <= i <= n,
            n == name@.len(),
            extension_start(name@) == extension_start(name@.take(i as int)),
        decreases i,
    {
        if name.get_char(i - 1) == '.' {
            proof {
                assert(name@.take(i as int)[i - 1] == name@[i - 1]);
            }
            return Some(i);
        }
        proof {
            assert(name@.take(i as int)[i - 1] == name@[i - 1]);
            assert(name@.take(i as int).take(i - 1) =~= name@.take(i - 1));
        }
        i -= 1;
    }
    proof {
        assert(name@.take(0).len() == 0);
    }
    None
}

/// The extension of `name` as a slice of it, or `None` when the name holds
/// no dot.
pub fn extension<'a>(name: &'a str) -> (r: Option<&'a str>)
    ensures
        match r {
            Some(e) => extension_of(name@) == Some(e@),
            None => extension_of(name@) is None,
        },
{
    let n = name.unicode_len();
    match find_extension_start(name) {
        Some(i) => Some(name.substring_char(i, n)),
        None => None,
    }
}

/// Whether `ext` is one of the recognized extensions, ignoring ASCII case.
pub fn is_recognized_extension(ext: &str) -> (r: bool)
    ensures
        r == recognized_extension(ext@),
{
    let n = ext.unicode_len();
    if n == 3 {
        let c0 = lower_char_exec(ext.get_char(0));
        let c1 = lower_char_exec(ext.get_char(1));
        let c2 = lower_char_exec(ext.get_char(2));
        let r = (c0 == 'm' && c1 == 'p' && c2 == '4') || (c0 == 'w' && c1 == 'a' && c2 == 'v') || (
        c0 == 'm' && c1 == 'p' && c2 == '3') || (c0 == 'm' && c1 == '4' && c2 == 'a') || (c0 == 'o'
            && c1 == 'g' && c2 == 'g');
        proof {
            assert(lower(ext@).len() == 3);
            assert(lower(ext@)[0] == lower_char(ext@[0]));
            assert(lower(ext@)[1] == lower_char(ext@[1]));
            assert(lower(ext@)[2] == lower_char(ext@[2]));
            if c0 == 'm' && c1 == 'p' && c2 == '4' {
                assert(lower(ext@) =~= seq!['m', 'p', '4']);
            }
            if c0 == 'w' && c1 == 'a' && c2 == 'v' {
                assert(lower(ext@) =~= seq!['w', 'a', 'v']);
            }
            if c0 == 'm' && c1 == 'p' && c2 == '3' {
                assert(lower(ext@) =~= seq!['m', 'p', '3']);
            }
            if c0 == 'm' && c1 == '4' && c2 == 'a' {
                assert(lower(ext@) =~= seq!['m', '4', 'a']);
            }
            if c0 == 'o' && c1 == 'g' && c2 == 'g' {
                assert(lower(ext@) =~= seq!['o', 'g', 'g']);
            }
        }
        r
    } else if n == 4 {
        let c0 = lower_char_exec(ext.get_char(0));
        let c1 = lower_char_exec(ext.get_char(1));
        let c2 = lower_char_exec(ext.get_char(2));
        let c3 = lower_char_exec(ext.get_char(3));
        let r = c0 == 'w' && c1 == 'e' && c2 == 'b' && c3 == 'm';
        proof {
            assert(lower(ext@).len() == 4);
            assert(lower(ext@)[0] == lower_char(ext@[0]));
            assert(lower(ext@)[1] == lower_char(ext@[1]));
            assert(lower(ext@)[2] == lower_char(ext@[2]));
            assert(lower(ext@)[3] == lower_char(ext@[3]));
            if r {
                assert(lower(ext@) =~= seq!['w', 'e', 'b', 'm']);
            }
        }
        r
    } else {
        proof {
            assert(lower(ext@).len() != 3 && lower(ext@).len() != 4);
        }
        false
    }
}

/// Whether the file called `name` carries a recognized extension.
pub fn has_recognized_extension(name: &str) -> (r: bool)
    ensures
        r == name_has_recognized_extension(name@),
{
    match extension(name) {
        Some(e) => is_recognized_extension(e),
        None => false,
    }
}

} // verus!
