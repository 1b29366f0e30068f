use vstd::prelude::*;

verus! {

/// Transient FIFO queue of one-line user-facing messages; the renderer
/// consumes one message per tick.
pub struct Log {
    pub messages: Vec<String>,
}

impl Log {
    pub fn new() -> (r: Log)
        ensures
            r.messages@.len() == 0,
    {
        Log { messages: Vec::new() }
    }

    /// Appends a message at the back of the queue.
    pub fn add_message(&mut self, msg: String)
        ensures
            final(self).messages@ =~= old(self).messages@.push(msg),
    {
        self.messages.push(msg);
    }

    /// Pops the oldest message, if any.
    pub fn get_message(&mut self) -> (r: Option<String>)
        ensures
            old(self).messages@.len() > 0 ==> {
                &&& r == Option::Some(old(self).messages@[0])
                &&& final(self).messages@ =~= old(self).messages@.drop_first()
            },
            old(self).messages@.len() == 0 ==> {
                &&& r is None
                &&& *final(self) == *old(self)
            },
    {
        if self.messages.len() > 0 {
            let msg = self.messages.remove(0);
            Option::Some(msg)
        } else {
            Option::None
        }
    }
}

} // verus!
