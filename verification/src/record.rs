use vstd::prelude::*;
use crate::literal::{Literal, Val};
use crate::table::NameMap;
use crate::text::{lower_seq, to_lower};

verus! {

/// What kind of body a frame belongs to.
#[derive(PartialEq, Eq, Structural, Debug, Clone, Copy)]
pub enum ARType {
    Program,
    Procedure,
}

/// One activation record: the owner's name, its kind, the nesting level of
/// its declaration (not the dynamic call depth), and its local members,
/// keyed case-insensitively by lower-cased name.  A record exists on the
/// call stack while its body runs and moves to the trace when it returns.
pub struct ActivationRecord {
    pub name: Literal,
    pub record_type: ARType,
    pub nesting_level: u32,
    pub members: NameMap<Literal>,
}

/// An [`ActivationRecord`] as the specifications see it, members
/// abstracted value-wise by [`Val`].
#[verifier::ext_equal]
pub ghost struct FrameA {
    pub name: Val,
    pub kind: ARType,
    pub level: u32,
    pub members: Map<Seq<char>, Val>,
}

/// A member mapping abstracted value-wise.
pub open spec fn abs_members(m: Map<Seq<char>, Literal>) -> Map<Seq<char>, Val> {
    Map::new(|k: Seq<char>| m.contains_key(k), |k: Seq<char>| m[k].abs())
}

impl ActivationRecord {
    /// The abstraction of this record; see [`FrameA`].
    pub open spec fn abs(self) -> FrameA {
        FrameA {
            name: self.name.abs(),
            kind: self.record_type,
            level: self.nesting_level,
            members: abs_members(self.members@),
        }
    }

    /// A fresh record with no members.
    pub fn from(name: Literal, record_type: ARType, nesting_level: u32) -> (r: ActivationRecord)
        ensures
            r.name == name,
            r.record_type == record_type,
            r.nesting_level == nesting_level,
            r.members@ == Map::<Seq<char>, Literal>::empty(),
    {
        ActivationRecord { name, record_type, nesting_level, members: NameMap::new() }
    }

    /// The member bound to `item_name`, compared case-insensitively, or
    /// `None` where the record holds no such member.
    pub fn get_item(&self, item_name: &str) -> (r: Option<&Literal>)
        ensures
            match r {
                Some(v) => self.members@.contains_key(lower_seq(item_name@)) && *v
                    == self.members@[lower_seq(item_name@)],
                None => !self.members@.contains_key(lower_seq(item_name@)),
            },
    {
        let key = to_lower(item_name);
        self.members.get(&key)
    }

    /// Binds `item_name`, folded to lower case, to the given value,
    /// replacing any previous binding.
    pub fn set_item(&mut self, item_name: &str, value: Literal)
        ensures
            final(self).members@ == old(self).members@.insert(lower_seq(item_name@), value),
            final(self).name == old(self).name,
            final(self).record_type == old(self).record_type,
            final(self).nesting_level == old(self).nesting_level,
    {
        let key = to_lower(item_name);
        self.members.insert(key, value);
    }

    /// The owner's name, or empty text where the name value is no text.
    pub fn get_name(&self) -> (r: &str)
        ensures
            match self.name {
                Literal::Text(ref s) => r@ == s@,
                _ => r@ == Seq::<char>::empty(),
            },
    {
        proof {
            reveal_strlit("");
        }
        match &self.name {
            Literal::Text(s) => s.as_str(),
            _ => "",
        }
    }

    /// The nesting level of the owner's declaration.
    pub fn get_nesting_level(&self) -> (r: u32)
        ensures
            r == self.nesting_level,
    {
        self.nesting_level
    }
}

/// The evaluator's call stack: a last-in-first-out sequence of activation
/// records whose top is the only frame variable reads and writes see.
pub struct ARCallStack {
    pub records: Vec<ActivationRecord>,
}

/// A record sequence abstracted frame-wise; the concrete order is kept.
pub open spec fn abs_stack(s: Seq<ActivationRecord>) -> Seq<FrameA> {
    s.map_values(|r: ActivationRecord| r.abs())
}

impl ARCallStack {
    /// An empty stack.
    pub fn new() -> (r: ARCallStack)
        ensures
            r.records@ == Seq::<ActivationRecord>::empty(),
    {
        ARCallStack { records: Vec::new() }
    }

    /// Pushes a record on top.
    pub fn push(&mut self, record: ActivationRecord)
        ensures
            final(self).records@ == old(self).records@.push(record),
    {
        self.records.push(record);
    }

    /// Removes and returns the top record, or `None` on an empty stack.
    pub fn pop(&mut self) -> (r: Option<ActivationRecord>)
        ensures
            match r {
                Some(rec) => old(self).records@.len() > 0 && rec == old(self).records@.last()
                    && final(self).records@ == old(self).records@.drop_last(),
                None => old(self).records@.len() == 0 && final(self).records@ == old(
                    self,
                ).records@,
            },
    {
        self.records.pop()
    }

    /// The top record, or `None` on an empty stack.
    pub fn peek(&self) -> (r: Option<&ActivationRecord>)
        ensures
            match r {
                Some(rec) => self.records@.len() > 0 && *rec == self.records@.last(),
                None => self.records@.len() == 0,
            },
    {
        if self.records.len() > 0 {
            Some(&self.records[self.records.len() - 1])
        } else {
            None
        }
    }
}

} // verus!
