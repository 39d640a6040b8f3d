//! What the file operations read and write: the subject line of a reminder,
//! and the line that a list of words appends.
//!
//! File content is free-form bytes; by convention one reminder per line with
//! Unix line endings.

use vstd::prelude::*;

verus! {

/// The newline byte that ends a line.
pub const NEWLINE: u8 = 10;

/// The space byte that separates appended words.
pub const SPACE: u8 = 32;

/// True if some byte of `s` is a newline.
pub open spec fn has_newline(s: Seq<u8>) -> bool {
    exists|i: int| 0 <= i < s.len() && s[i] == NEWLINE
}

/// The subject of a reminder: its first line, up to and including the first
/// newline byte, or all of the content when no newline occurs in it.
pub fn subject_of(content: &Vec<u8>) -> (r: Vec<u8>)
    ensures
        r@.len() <= content@.len(),
        r@ == content@.take(r@.len() as int),
        forall|j: int| 0 <= j < r@.len() - 1 ==> content@[j] != NEWLINE,
        has_newline(content@) ==> r@.len() >= 1 && r@[r@.len() - 1] == NEWLINE,
        !has_newline(content@) ==> r@ == content@,
{
    let mut r: Vec<u8> = Vec::new();
    let mut i: usize = 0;
    while i < content.len()
        invariant
            i <= content@.len(),
            r@ =~= content@.take(i as int),
            forall|j: int| 0 <= j < i ==> content@[j] != NEWLINE,
        decreases content@.len() - i,
    {
        let b = content[i];
        r.push(b);
        i = i + 1;
        proof {
            assert(r@ =~= content@.take(i as int));
        }
        if b == NEWLINE {
            return r;
        }
    }
    proof {
        assert(content@.take(content@.len() as int) =~= content@);
    }
    r
}

/// The words of an appended reminder, joined by single spaces.
pub open spec fn joined(words: Seq<Seq<u8>>) -> Seq<u8>
    decreases words.len(),
{
    if words.len() == 0 {
        Seq::empty()
    } else if words.len() == 1 {
        words[0]
    } else {
        joined(words.drop_last()) + seq![SPACE] + words.last()
    }
}

/// The line that appending `words` writes: the words joined by single
/// spaces, ended by a newline. No words yield a bare newline.
pub open spec fn appended_line(words: Seq<Seq<u8>>) -> Seq<u8> {
    joined(words) + seq![NEWLINE]
}

/// Builds the line that the given words append to the marker file.
pub fn line_of(words: &Vec<Vec<u8>>) -> (r: Vec<u8>)
    ensures
        r@ == appended_line(words.deep_view()),
{
    let ghost all = words.deep_view();
    let mut r: Vec<u8> = Vec::new();
    let mut i: usize = 0;
    while i < words.len()
        invariant
            i <= words@.len(),
            all == words.deep_view(),
            all.len() == words@.len(),
            forall|k: int| 0 <= k < words@.len() ==> all[k] == words@[k]@,
            r@ =~= joined(all.take(i as int)),
        decreases words@.len() - i,
    {
        if i > 0 {
            r.push(SPACE);
        }
        let word = &words[i];
        let mut k: usize = 0;
        while k < word.len()
            invariant
                k <= word@.len(),
                i < words@.len(),
                all == words.deep_view(),
                all.len() == words@.len(),
                forall|m: int| 0 <= m < words@.len() ==> all[m] == words@[m]@,
                word == words@[i as int],
                i > 0 ==> r@ =~= joined(all.take(i as int)) + seq![SPACE] + word@.take(k as int),
                i == 0 ==> r@ =~= word@.take(k as int),
            decreases word@.len() - k,
        {
            r.push(word[k]);
            k = k + 1;
        }
        i = i + 1;
        proof {
            assert(all.take(i as int).drop_last() =~= all.take(i - 1));
            assert(all.take(i as int).last() == all[i - 1]);
            assert(all[i - 1] == word@);
            if i == 1 {
                assert(r@ =~= word@.take(word@.len() as int));
                assert(word@.take(word@.len() as int) =~= word@);
                assert(joined(all.take(1)) == all.take(1)[0]);
            } else {
                assert(word@.take(word@.len() as int) =~= word@);
                assert(joined(all.take(i as int)) == joined(all.take(i - 1)) + seq![SPACE]
                    + all[i - 1]);
            }
        }
    }
    proof {
        assert(all.take(all.len() as int) =~= all);
    }
    r.push(NEWLINE);
    proof {
        assert(r@ =~= joined(all) + seq![NEWLINE]);
    }
    r
}

} // verus!
