use std::collections::VecDeque;

use vstd::prelude::*;
use vstd::string::StringExecFns;

verus! {

/// A bounded log of the most recently received messages, newest to oldest
/// front to back, kept for monitoring what the control surface receives.
pub struct Log<T> {
    /// Newest to oldest is stored front to back respectively.
    pub deque: VecDeque<T>,
    /// The index of the oldest message currently stored in the deque.
    pub start_index: usize,
    /// The max number of messages stored in the log at one time.
    pub limit: usize,
}

impl<T> Log<T> {
    /// The log never holds more than its limit.
    pub open spec fn wf(self) -> bool {
        self.deque@.len() <= self.limit
    }

    /// Constructs a log that stores the given max number of messages.
    pub fn with_limit(limit: usize) -> (r: Self)
        ensures
            r.wf(),
            r.deque@.len() == 0,
            r.start_index == 0,
            r.limit == limit,
    {
        Log { deque: VecDeque::new(), start_index: 0, limit }
    }

    /// Pushes a new message to the front of the log, dropping the oldest
    /// entries beyond the limit and advancing the start index past them.
    #[verifier::loop_isolation(false)]
    pub fn push_msg(&mut self, msg: T)
        requires
            old(self).wf(),
            old(self).start_index < usize::MAX,
        ensures
            final(self).wf(),
            final(self).limit == old(self).limit,
            final(self).deque@ == if old(self).deque@.len() + 1 <= old(self).limit {
                seq![msg] + old(self).deque@
            } else {
                (seq![msg] + old(self).deque@).take(old(self).limit as int)
            },
            final(self).start_index == old(self).start_index + (old(self).deque@.len() + 1)
                - final(self).deque@.len(),
    {
        let ghost pushed = seq![msg] + old(self).deque@;
        self.deque.push_front(msg);
        proof {
            assert(self.deque@ =~= pushed.take(self.deque@.len() as int));
        }
        while self.deque.len() > self.limit
            invariant
                self.limit == old(self).limit,
                self.deque@.len() <= pushed.len() <= old(self).limit + 1,
                pushed.len() <= old(self).limit ==> self.deque@.len() == pushed.len(),
                pushed.len() > old(self).limit ==> self.deque@.len() >= old(self).limit,
                self.deque@ == pushed.take(self.deque@.len() as int),
                self.start_index == old(self).start_index + pushed.len() - self.deque@.len(),
            decreases self.deque@.len(),
        {
            self.deque.pop_back();
            self.start_index = self.start_index + 1;
            proof {
                assert(self.deque@ =~= pushed.take(self.deque@.len() as int));
            }
        }
        proof {
            if pushed.len() <= old(self).limit {
                assert(self.deque@ =~= pushed);
            }
        }
    }
}

/// The directory in which all fonts are stored, under the given assets
/// directory.
pub fn fonts_directory(assets: &str) -> (r: String)
    ensures
        r@ == assets@ + "/fonts"@,
{
    String::from_str(assets).concat("/fonts")
}

/// The directory in which all images are stored, under the given assets
/// directory.
pub fn images_directory(assets: &str) -> (r: String)
    ensures
        r@ == assets@ + "/images"@,
{
    String::from_str(assets).concat("/images")
}

} // verus!
