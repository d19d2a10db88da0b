//! Where typed output goes, and the record of typing operations.
use crate::text::views;
use vstd::prelude::*;

verus! {

/// Types text by piping it to a helper command, or to stdout when there is none.
pub struct OutputBackend {
    pub pipe_command: Option<Vec<String>>,
}

impl OutputBackend {
    pub fn new(pipe_command: Option<Vec<String>>) -> (b: Self)
        ensures
            b.pipe_command == pipe_command,
    {
        OutputBackend { pipe_command }
    }
}

/// One operation sent to the focused window.
#[derive(Debug, PartialEq, Eq)]
pub enum TypingOperation {
    Type(String),
    Backspace(usize),
}

/// An operation taken by its value.
pub enum OperationModel {
    Type(Seq<char>),
    Backspace(nat),
}

pub open spec fn operation_model(o: TypingOperation) -> OperationModel {
    match o {
        TypingOperation::Type(s) => OperationModel::Type(s@),
        TypingOperation::Backspace(n) => OperationModel::Backspace(n as nat),
    }
}

pub open spec fn operation_models(v: Seq<TypingOperation>) -> Seq<OperationModel> {
    v.map_values(|o: TypingOperation| operation_model(o))
}

pub fn copy_operation(o: &TypingOperation) -> (r: TypingOperation)
    ensures
        operation_model(r) == operation_model(*o),
{
    match o {
        TypingOperation::Type(s) => TypingOperation::Type(String::from_str(s.as_str())),
        TypingOperation::Backspace(n) => TypingOperation::Backspace(*n),
    }
}

/// A backend that only records what it was asked to type.
pub struct MockTypingBackend {
    operations: Vec<TypingOperation>,
}

impl View for MockTypingBackend {
    type V = Seq<OperationModel>;

    closed spec fn view(&self) -> Seq<OperationModel> {
        operation_models(self.operations@)
    }
}

impl MockTypingBackend {
    pub fn new() -> (b: Self)
        ensures
            b@ == Seq::<OperationModel>::empty(),
    {
        let b = MockTypingBackend { operations: Vec::new() };
        proof {
            assert(operation_models(b.operations@) =~= Seq::<OperationModel>::empty());
        }
        b
    }

    /// Everything recorded so far, in order.
    pub fn operations(&self) -> (v: Vec<TypingOperation>)
        ensures
            operation_models(v@) == self@,
    {
        let mut v: Vec<TypingOperation> = Vec::new();
        let mut i: usize = 0;
        while i < self.operations.len()
            invariant
                0 <= i <= self.operations@.len(),
                operation_models(v@) == operation_models(self.operations@).take(i as int),
            decreases self.operations@.len() - i,
        {
            let o = copy_operation(&self.operations[i]);
            let ghost before = v@;
            v.push(o);
            proof {
                assert(v@ == before.push(o));
                assert(operation_models(v@) =~= operation_models(before).push(operation_model(o)));
                assert(operation_model(o) == operation_models(self.operations@)[i as int]);
                assert(operation_models(v@) =~= operation_models(self.operations@).take(i + 1));
            }
            i = i + 1;
        }
        proof {
            assert(operation_models(self.operations@).take(self.operations@.len() as int)
                =~= operation_models(self.operations@));
        }
        v
    }
}

/// Where typed text and backspaces go: the focused window through a helper
/// command or stdout, or a recorder. A backend may keep, as its model, the
/// record of the operations it carried out, and may promise that every
/// operation goes through; one that says neither promises nothing beyond
/// the result it returns.
pub trait TypingBackend {
    /// The operations carried out so far, oldest first, where the backend
    /// keeps that record.
    open spec fn sent(&self) -> Seq<OperationModel> {
        Seq::<OperationModel>::empty()
    }

    /// Whether `sent` is this backend's record of what it carried out.
    open spec fn keeps_record(&self) -> bool {
        false
    }

    /// Whether every operation given to this backend goes through.
    open spec fn is_reliable(&self) -> bool {
        false
    }

    /// Types `text`.
    fn type_text(&mut self, text: &str) -> (r: Result<(), String>)
        ensures
            old(self).keeps_record() ==> final(self).keeps_record() && (r is Ok ==> final(self).sent()
                == old(self).sent().push(OperationModel::Type(text@))),
            old(self).is_reliable() ==> r is Ok && final(self).is_reliable(),
    ;

    /// Sends `count` backspaces.
    fn backspace(&mut self, count: usize) -> (r: Result<(), String>)
        ensures
            old(self).keeps_record() ==> final(self).keeps_record() && (r is Ok ==> final(self).sent()
                == old(self).sent().push(OperationModel::Backspace(count as nat))),
            old(self).is_reliable() ==> r is Ok && final(self).is_reliable(),
    ;
}

impl TypingBackend for MockTypingBackend {
    open spec fn sent(&self) -> Seq<OperationModel> {
        self@
    }

    open spec fn keeps_record(&self) -> bool {
        true
    }

    open spec fn is_reliable(&self) -> bool {
        true
    }

    fn type_text(&mut self, text: &str) -> (r: Result<(), String>)
        ensures
            r is Ok,
            final(self)@ == old(self)@.push(OperationModel::Type(text@)),
    {
        let o = TypingOperation::Type(String::from_str(text));
        let ghost before = self.operations@;
        self.operations.push(o);
        proof {
            assert(self.operations@ == before.push(o));
            assert(operation_models(self.operations@) =~= operation_models(before).push(
                operation_model(o),
            ));
        }
        Ok(())
    }

    fn backspace(&mut self, count: usize) -> (r: Result<(), String>)
        ensures
            r is Ok,
            final(self)@ == old(self)@.push(OperationModel::Backspace(count as nat)),
    {
        let o = TypingOperation::Backspace(count);
        let ghost before = self.operations@;
        self.operations.push(o);
        proof {
            assert(self.operations@ == before.push(o));
            assert(operation_models(self.operations@) =~= operation_models(before).push(
                operation_model(o),
            ));
        }
        Ok(())
    }
}

} // verus!
