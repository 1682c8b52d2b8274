//! Bounded FIFO of Unicode characters.
//!
//! The buffer keeps at most `capacity` characters; when more arrive, the
//! oldest are evicted one per new character, so eviction is character-granular
//! and multi-byte encodings are never split.

use std::collections::VecDeque;
use vstd::prelude::*;

use crate::text::{chars_of, push_char};

verus! {

/// The contents of a bounded character buffer after appending `text` to
/// `buf`: the last `cap` characters of `buf + text`.
pub open spec fn push_result(buf: Seq<char>, cap: nat, text: Seq<char>) -> Seq<char> {
    let total = buf + text;
    if total.len() <= cap {
        total
    } else {
        total.subrange(total.len() - cap, total.len() as int)
    }
}

/// Fixed-capacity ring of characters with FIFO eviction.
pub struct RingBuffer {
    data: VecDeque<char>,
    capacity: usize,
}

impl View for RingBuffer {
    type V = Seq<char>;

    closed spec fn view(&self) -> Seq<char> {
        self.data@
    }
}

impl RingBuffer {
    /// Greatest number of characters the buffer retains.
    pub closed spec fn spec_capacity(&self) -> nat {
        self.capacity as nat
    }

    /// The buffer never holds more characters than its capacity.
    pub open spec fn wf(&self) -> bool {
        self@.len() <= self.spec_capacity()
    }

    pub fn new(capacity: usize) -> (r: Self)
        ensures
            r@ == Seq::<char>::empty(),
            r.spec_capacity() == capacity,
            r.wf(),
    {
        RingBuffer { data: VecDeque::new(), capacity }
    }

    /// Appends all characters of `text`; once the buffer is full, each new
    /// character evicts the oldest one.
    pub fn push(&mut self, text: &str)
        requires
            old(self).wf(),
        ensures
            final(self)@ == push_result(old(self)@, old(self).spec_capacity(), text@),
            final(self).spec_capacity() == old(self).spec_capacity(),
            final(self).wf(),
    {
        let chars = chars_of(text);
        if self.capacity == 0 {
            proof {
                assert(self@ =~= push_result(old(self)@, 0, text@));
            }
            return;
        }
        let mut i: usize = 0;
        while i < chars.len()
            invariant
                i <= chars.len(),
                chars@ == text@,
                self.capacity == old(self).capacity,
                self.capacity > 0,
                self.data@ == push_result(old(self)@, self.capacity as nat, text@.subrange(0, i as int)),
                self.data@.len() <= self.capacity,
                old(self)@.len() <= self.capacity,
            decreases chars.len() - i,
        {
            if self.data.len() == self.capacity {
                self.data.pop_front();
            }
            self.data.push_back(chars[i]);
            proof {
                let cap = self.capacity as nat;
                let done = text@.subrange(0, i + 1);
                assert(done.drop_last() =~= text@.subrange(0, i as int));
                assert(done.last() == text@[i as int]);
                lemma_push_result_step(old(self)@, cap, done);
            }
            i += 1;
        }
        proof {
            assert(text@.subrange(0, text@.len() as int) =~= text@);
        }
    }

    /// Returns the current contents as a string.
    pub fn content(&self) -> (s: String)
        ensures
            s@ == self@,
    {
        let mut out = String::new();
        let mut i: usize = 0;
        while i < self.data.len()
            invariant
                i <= self.data.len(),
                out@ == self.data@.subrange(0, i as int),
            decreases self.data.len() - i,
        {
            push_char(&mut out, self.data[i]);
            proof {
                assert(self.data@.subrange(0, i + 1) =~= self.data@.subrange(0, i as int).push(
                    self.data@[i as int],
                ));
            }
            i += 1;
        }
        proof {
            assert(self.data@.subrange(0, self.data@.len() as int) =~= self.data@);
        }
        out
    }

    /// Removes all characters.
    pub fn clear(&mut self)
        ensures
            final(self)@ == Seq::<char>::empty(),
            final(self).spec_capacity() == old(self).spec_capacity(),
            final(self).wf(),
    {
        self.data.clear();
    }

    /// Number of characters currently held.
    pub fn len(&self) -> (n: usize)
        ensures
            n == self@.len(),
    {
        self.data.len()
    }

    pub fn is_empty(&self) -> (b: bool)
        ensures
            b == (self@.len() == 0),
    {
        self.data.len() == 0
    }

    /// The suffix of `min(n, len)` characters, as a new string.
    pub fn last_n(&self, n: usize) -> (s: String)
        ensures
            s@ == self@.subrange(self@.len() - spec_min(n as nat, self@.len()), self@.len() as int),
    {
        let start = if n >= self.data.len() {
            0
        } else {
            self.data.len() - n
        };
        let mut out = String::new();
        let mut i: usize = start;
        while i < self.data.len()
            invariant
                start <= i <= self.data.len(),
                out@ == self.data@.subrange(start as int, i as int),
            decreases self.data.len() - i,
        {
            push_char(&mut out, self.data[i]);
            proof {
                assert(self.data@.subrange(start as int, i + 1) =~= self.data@.subrange(
                    start as int,
                    i as int,
                ).push(self.data@[i as int]));
            }
            i += 1;
        }
        out
    }

    /// Greatest number of characters the buffer can retain.
    pub fn capacity(&self) -> (n: usize)
        ensures
            n == self.spec_capacity(),
    {
        self.capacity
    }
}

/// Smaller of two lengths.
pub open spec fn spec_min(a: nat, b: nat) -> nat {
    if a <= b {
        a
    } else {
        b
    }
}

/// Appending one more character to a bounded buffer extends the push result
/// by that character, evicting the front when the buffer is full.
proof fn lemma_push_result_step(buf: Seq<char>, cap: nat, text: Seq<char>)
    requires
        cap > 0,
        text.len() > 0,
    ensures
        push_result(buf, cap, text) == if push_result(buf, cap, text.drop_last()).len() < cap {
            push_result(buf, cap, text.drop_last()).push(text.last())
        } else {
            push_result(buf, cap, text.drop_last()).drop_first().push(text.last())
        },
{
    let prev = push_result(buf, cap, text.drop_last());
    assert(buf + text.drop_last() =~= (buf + text).subrange(0, buf.len() + text.len() - 1));
    if prev.len() < cap {
        assert(push_result(buf, cap, text) =~= prev.push(text.last()));
    } else {
        assert(push_result(buf, cap, text) =~= prev.drop_first().push(text.last()));
    }
}

} // verus!
