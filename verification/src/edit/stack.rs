//! Undo and redo over a history of commands.

use vstd::prelude::*;
use crate::edit::error::CommandError;
use crate::edit::traits::Command;
use crate::types::document::Document;

verus! {

/// A history of executed commands for undo and redo. At most `max_depth`
/// commands are kept for undo; the oldest is dropped beyond that.
pub struct CommandStack<C: Command + ?Sized> {
    undo_stack: Vec<Box<C>>,
    redo_stack: Vec<Box<C>>,
    max_depth: usize,
}

impl<C: Command + ?Sized> CommandStack<C> {
    #[verifier::type_invariant]
    closed spec fn bounded(&self) -> bool {
        1 <= self.max_depth && self.undo_stack@.len() + self.redo_stack@.len() <= self.max_depth
    }

    /// The commands that can be undone, oldest first.
    pub closed spec fn spec_undo(&self) -> Seq<Box<C>> {
        self.undo_stack@
    }

    /// The commands that can be redone, the next one to redo last.
    pub closed spec fn spec_redo(&self) -> Seq<Box<C>> {
        self.redo_stack@
    }

    /// How many commands can be undone.
    pub open spec fn spec_undo_len(&self) -> nat {
        self.spec_undo().len()
    }

    /// How many commands can be redone.
    pub open spec fn spec_redo_len(&self) -> nat {
        self.spec_redo().len()
    }

    /// The largest number of commands kept for undo.
    pub closed spec fn spec_max_depth(&self) -> usize {
        self.max_depth
    }

    /// An empty history keeping up to `max_depth` commands (at least one).
    pub fn new(max_depth: usize) -> (r: CommandStack<C>)
        ensures
            r.spec_undo_len() == 0,
            r.spec_redo_len() == 0,
            r.spec_max_depth() == if max_depth == 0 { 1 } else { max_depth },
    {
        let effective = if max_depth == 0 { 1 } else { max_depth };
        CommandStack { undo_stack: Vec::new(), redo_stack: Vec::new(), max_depth: effective }
    }

    /// Runs `cmd` on `doc` and returns what it returned. On success the
    /// command, as the run left it, goes last in the undo history (the
    /// oldest entry is dropped beyond `max_depth`) and the redo history is
    /// cleared. When the command fails, the history is unchanged.
    pub fn execute(&mut self, cmd: Box<C>, doc: &mut Document) -> (r: Result<(), CommandError>)
        ensures
            final(self).spec_max_depth() == old(self).spec_max_depth(),
            final(self).spec_undo_len() + final(self).spec_redo_len() <= final(self).spec_max_depth(),
            r is Ok ==> final(self).spec_redo_len() == 0 && final(self).spec_undo_len() == (if old(self).spec_undo_len()
                < old(self).spec_max_depth() {
                old(self).spec_undo_len() + 1
            } else {
                old(self).spec_max_depth() as nat
            }),
            r is Ok ==> final(self).spec_undo().drop_last() == (if old(self).spec_undo_len() < old(self).spec_max_depth() {
                old(self).spec_undo()
            } else {
                old(self).spec_undo().drop_first()
            }),
            r is Err ==> final(self).spec_undo() == old(self).spec_undo() && final(self).spec_redo() == old(self).spec_redo(),
            cmd.executes(old(doc)@, final(doc)@, r),
            r is Ok ==> final(self).spec_undo().last().executed(old(doc)@, final(doc)@, r),
    {
        proof {
            use_type_invariant(&*self);
        }
        let mut cmd = cmd;
        let res = cmd.execute(doc);
        if res.is_err() {
            return res;
        }
        let max = self.max_depth;
        let mut undo: Vec<Box<C>> = Vec::new();
        std::mem::swap(&mut undo, &mut self.undo_stack);
        self.redo_stack = Vec::new();
        let ghost before = undo@;
        undo.push(cmd);
        if undo.len() > max {
            let _dropped = undo.remove(0);
            assert(undo@.drop_last() =~= before.drop_first());
        } else {
            assert(undo@.drop_last() =~= before);
        }
        assert(undo@.last() == cmd);
        self.undo_stack = undo;
        res
    }

    /// Runs the undo of the most recent command on `doc` and returns what it
    /// returned; on success the command, as the undo left it, goes last in
    /// the redo history. When there is none, fails with `NothingToUndo`;
    /// when its undo fails, it stays undoable, last in the history: on every
    /// error the history is as it was.
    pub fn undo(&mut self, doc: &mut Document) -> (r: Result<(), CommandError>)
        ensures
            final(self).spec_max_depth() == old(self).spec_max_depth(),
            final(self).spec_undo_len() + final(self).spec_redo_len() <= final(self).spec_max_depth(),
            old(self).spec_undo_len() == 0 ==> (r matches Err(e) && e is NothingToUndo),
            old(self).spec_undo_len() == 0 ==> *final(doc) == *old(doc) && final(self).spec_redo_len() == old(self).spec_redo_len(),
            r is Ok ==> final(self).spec_undo_len() == old(self).spec_undo_len() - 1 && final(self).spec_redo_len()
                == old(self).spec_redo_len() + 1,
            r is Ok ==> final(self).spec_undo() == old(self).spec_undo().drop_last() && final(self).spec_redo().drop_last()
                == old(self).spec_redo(),
            r is Err ==> final(self).spec_undo() == old(self).spec_undo() && final(self).spec_redo() == old(self).spec_redo(),
            old(self).spec_undo_len() > 0 ==> old(self).spec_undo().last().undoes(old(doc)@, final(doc)@, r),
            old(self).spec_undo_len() > 0 && r is Ok ==> final(self).spec_redo().last().undone(old(doc)@, final(doc)@, r),
    {
        proof {
            use_type_invariant(&*self);
        }
        let mut undo: Vec<Box<C>> = Vec::new();
        std::mem::swap(&mut undo, &mut self.undo_stack);
        let ghost u0 = undo@;
        let mut cmd = match undo.pop() {
            Some(c) => c,
            None => {
                self.undo_stack = undo;
                return Err(CommandError::NothingToUndo);
            },
        };
        let res = cmd.undo(doc);
        if res.is_ok() {
            let mut redo: Vec<Box<C>> = Vec::new();
            std::mem::swap(&mut redo, &mut self.redo_stack);
            let ghost r0 = redo@;
            redo.push(cmd);
            assert(redo@.drop_last() =~= r0);
            assert(undo@ =~= u0.drop_last());
            self.redo_stack = redo;
            self.undo_stack = undo;
        } else {
            undo.push(cmd);
            assert(undo@ =~= u0);
            self.undo_stack = undo;
        }
        res
    }

    /// Runs again the most recently undone command on `doc` and returns what
    /// it returned; on success the command, as the run left it, goes last in
    /// the undo history. When there is none, fails with `NothingToRedo`;
    /// when it fails, the command is dropped.
    pub fn redo(&mut self, doc: &mut Document) -> (r: Result<(), CommandError>)
        ensures
            final(self).spec_max_depth() == old(self).spec_max_depth(),
            final(self).spec_undo_len() + final(self).spec_redo_len() <= final(self).spec_max_depth(),
            old(self).spec_redo_len() == 0 ==> (r matches Err(e) && e is NothingToRedo),
            old(self).spec_redo_len() == 0 ==> *final(doc) == *old(doc) && final(self).spec_undo_len() == old(self).spec_undo_len(),
            r is Ok ==> final(self).spec_redo_len() == old(self).spec_redo_len() - 1 && final(self).spec_undo_len()
                == old(self).spec_undo_len() + 1,
            (r is Err && old(self).spec_redo_len() > 0) ==> final(self).spec_redo_len() == old(self).spec_redo_len() - 1
                && final(self).spec_undo_len() == old(self).spec_undo_len(),
            old(self).spec_redo_len() > 0 ==> final(self).spec_redo() == old(self).spec_redo().drop_last(),
            r is Ok ==> final(self).spec_undo().drop_last() == old(self).spec_undo(),
            r is Err ==> final(self).spec_undo() == old(self).spec_undo(),
            old(self).spec_redo_len() == 0 ==> final(self).spec_redo() == old(self).spec_redo(),
            old(self).spec_redo_len() > 0 ==> old(self).spec_redo().last().executes(old(doc)@, final(doc)@, r),
            r is Ok ==> final(self).spec_undo().last().executed(old(doc)@, final(doc)@, r),
    {
        proof {
            use_type_invariant(&*self);
        }
        let mut redo: Vec<Box<C>> = Vec::new();
        std::mem::swap(&mut redo, &mut self.redo_stack);
        let mut cmd = match redo.pop() {
            Some(c) => c,
            None => {
                self.redo_stack = redo;
                return Err(CommandError::NothingToRedo);
            },
        };
        self.redo_stack = redo;
        let res = cmd.execute(doc);
        if res.is_err() {
            return res;
        }
        let mut undo: Vec<Box<C>> = Vec::new();
        std::mem::swap(&mut undo, &mut self.undo_stack);
        let ghost u0 = undo@;
        undo.push(cmd);
        assert(undo@.drop_last() =~= u0);
        self.undo_stack = undo;
        res
    }

    /// How many commands can be undone.
    pub fn undo_len(&self) -> (n: usize)
        ensures
            n == self.spec_undo_len(),
            self.spec_undo_len() + self.spec_redo_len() <= self.spec_max_depth(),
    {
        proof {
            use_type_invariant(self);
        }
        self.undo_stack.len()
    }

    /// How many commands can be redone.
    pub fn redo_len(&self) -> (n: usize)
        ensures
            n == self.spec_redo_len(),
    {
        self.redo_stack.len()
    }
}

} // verus!
