//! Which directory entries are playable tracks.

use vstd::prelude::*;
use crate::error::PlayError;
use crate::text::{chars_of, push_char};

verus! {

/// The extensions of the audio formats that can be played, matched exactly
/// (lower case only).
pub open spec fn is_supported_extension(ext: Seq<char>) -> bool {
    ||| ext == seq!['f', 'l', 'a', 'c']
    ||| ext == seq!['w', 'a', 'v']
    ||| ext == seq!['m', 'p', '3']
}

/// `k` is the position of the last '.' of `name`, and that dot is not the
/// first character, so that it separates a stem from an extension.
pub open spec fn is_extension_dot(name: Seq<char>, k: int) -> bool {
    &&& 0 < k < name.len()
    &&& name[k] == '.'
    &&& forall|j: int| k < j < name.len() ==> name[j] != '.'
}

/// A file name is a track when it ends in a supported extension after a
/// non-empty stem.
pub open spec fn is_track_name(name: Seq<char>) -> bool {
    exists|k: int| is_extension_dot(name, k) && is_supported_extension(name.skip(k + 1))
}

/// The human-readable name of a file: the part before the extension, or the
/// whole name when it has no extension.
pub open spec fn stem_of(name: Seq<char>) -> Seq<char> {
    if exists|k: int| is_extension_dot(name, k) {
        name.take(choose|k: int| is_extension_dot(name, k))
    } else {
        name
    }
}

/// The tracks among the entries of a directory, in listing order.
pub open spec fn tracks_among(entries: Seq<String>) -> Seq<String> {
    entries.filter(|e: String| is_track_name(e@))
}

proof fn lemma_extension_dot_unique(name: Seq<char>, k1: int, k2: int)
    requires
        is_extension_dot(name, k1),
        is_extension_dot(name, k2),
    ensures
        k1 == k2,
{
}

/// Position of the extension dot of `name`, if it has one.
fn extension_dot(name: &Vec<char>) -> (r: Option<usize>)
    ensures
        r matches Some(k) ==> is_extension_dot(name@, k as int),
        r is None ==> !(exists|k: int| is_extension_dot(name@, k)),
{
    let mut i: usize = name.len();
    while i > 0
        invariant
            i <= name.len(),
            forall|j: int| i <= j < name.len() ==> name@[j] != '.',
        decreases i,
    {
        i = i - 1;
        if name[i] == '.' {
            if i > 0 {
                return Some(i);
            } else {
                return None;
            }
        }
    }
    None
}

fn supported_extension(ext: &[char]) -> (r: bool)
    ensures
        r == is_supported_extension(ext@),
{
    let n = ext.len();
    let a = n == 4 && ext[0] == 'f' && ext[1] == 'l' && ext[2] == 'a' && ext[3] == 'c';
    let b = n == 3 && ext[0] == 'w' && ext[1] == 'a' && ext[2] == 'v';
    let c = n == 3 && ext[0] == 'm' && ext[1] == 'p' && ext[2] == '3';
    assert(a == (ext@ == seq!['f', 'l', 'a', 'c'])) by {
        if ext@ == seq!['f', 'l', 'a', 'c'] {
            assert(ext@.len() == 4);
        }
        if a {
            assert(ext@ =~= seq!['f', 'l', 'a', 'c']);
        }
    }
    assert(b == (ext@ == seq!['w', 'a', 'v'])) by {
        if ext@ == seq!['w', 'a', 'v'] {
            assert(ext@.len() == 3);
        }
        if b {
            assert(ext@ =~= seq!['w', 'a', 'v']);
        }
    }
    assert(c == (ext@ == seq!['m', 'p', '3'])) by {
        if ext@ == seq!['m', 'p', '3'] {
            assert(ext@.len() == 3);
        }
        if c {
            assert(ext@ =~= seq!['m', 'p', '3']);
        }
    }
    a || b || c
}

/// Whether a file name has one of the supported extensions.
pub fn is_track(name: &String) -> (r: bool)
    ensures
        r == is_track_name(name@),
{
    let chars = chars_of(name.as_str());
    match extension_dot(&chars) {
        None => false,
        Some(k) => {
            assert(k < chars.len());
            let r = supported_extension(chars.as_slice().split_at(k + 1).1);
            proof {
                assert(chars@.skip(k + 1) =~= chars@.subrange(k + 1, chars@.len() as int));
                if is_track_name(name@) {
                    let k2 = choose|k2: int|
                        is_extension_dot(name@, k2) && is_supported_extension(name@.skip(k2 + 1));
                    lemma_extension_dot_unique(name@, k as int, k2);
                }
            }
            r
        }
    }
}

/// The tracks among `entries`, the names of a directory's entries in listing
/// order. Fails with `PlayError::Data` when there is none.
pub fn discover(entries: &Vec<String>) -> (r: Result<Vec<String>, PlayError>)
    ensures
        r matches Ok(v) ==> v@ == tracks_among(entries@) && v@.len() > 0,
        r is Err <==> tracks_among(entries@).len() == 0,
        r matches Err(e) ==> e == PlayError::Data,
{
    let mut found: Vec<String> = Vec::new();
    let mut i: usize = 0;
    while i < entries.len()
        invariant
            i <= entries.len(),
            found@ == tracks_among(entries@.take(i as int)),
        decreases entries.len() - i,
    {
        proof {
            reveal(Seq::filter);
            assert(entries@.take(i + 1).drop_last() =~= entries@.take(i as int));
        }
        if is_track(&entries[i]) {
            found.push(entries[i].clone());
        }
        i = i + 1;
    }
    assert(entries@.take(entries.len() as int) =~= entries@);
    if found.len() == 0 {
        Err(PlayError::Data)
    } else {
        Ok(found)
    }
}

/// The name under which a track is announced: its file name without the
/// extension.
pub fn track_title(name: &String) -> (r: String)
    ensures
        r@ == stem_of(name@),
{
    let chars = chars_of(name.as_str());
    let end: usize = match extension_dot(&chars) {
        Some(k) => {
            proof {
                let k2 = choose|k2: int| is_extension_dot(name@, k2);
                lemma_extension_dot_unique(name@, k as int, k2);
            }
            k
        },
        None => chars.len(),
    };
    let mut title = String::new();
    let mut i: usize = 0;
    while i < end
        invariant
            i <= end <= chars.len(),
            chars@ == name@,
            title@ == chars@.take(i as int),
        decreases end - i,
    {
        push_char(&mut title, chars[i]);
        proof {
            assert(chars@.take(i + 1) =~= chars@.take(i as int).push(chars@[i as int]));
        }
        i = i + 1;
    }
    assert(name@.take(name@.len() as int) =~= name@);
    title
}

/// The entries of a directory that are not tracks.
pub open spec fn others_among(entries: Seq<String>) -> Seq<String> {
    entries.filter(|e: String| !is_track_name(e@))
}

/// Of a directory with `n` tracks and `m` other entries, exactly the `n`
/// tracks are kept; so with no entry, or no track among them, nothing is.
pub proof fn lemma_tracks_are_counted(entries: Seq<String>)
    ensures
        tracks_among(entries).len() + others_among(entries).len() == entries.len(),
        forall|t: String| #[trigger]
            tracks_among(entries).contains(t) <==> entries.contains(t) && is_track_name(t@),
        (forall|i: int| 0 <= i < entries.len() ==> !is_track_name((#[trigger] entries[i])@))
            ==> tracks_among(entries).len() == 0,
    decreases entries.len(),
{
    reveal(Seq::filter);
    if entries.len() > 0 {
        let rest = entries.drop_last();
        lemma_tracks_are_counted(rest);
        assert forall|i: int| 0 <= i < rest.len() implies rest[i] == entries[i] by {}
        assert forall|t: String| #[trigger]
            tracks_among(entries).contains(t) <==> entries.contains(t) && is_track_name(t@) by {
            if entries.contains(t) && is_track_name(t@) {
                let k = choose|k: int| 0 <= k < entries.len() && entries[k] == t;
                if k < rest.len() {
                    assert(rest[k] == t);
                    assert(rest.contains(t));
                } else {
                    assert(entries.last() == t);
                }
            }
            if tracks_among(rest).contains(t) {
                assert(rest.contains(t));
                let k = choose|k: int| 0 <= k < rest.len() && rest[k] == t;
                assert(entries[k] == t);
            }
        }
    }
}

} // verus!
