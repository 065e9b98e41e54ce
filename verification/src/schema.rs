//! Schemas: the traversal rule of each type, and the traversal functions that
//! steps can name.

use crate::routine::Routine;
use vstd::prelude::*;

verus! {

/// The way the values of a type are traversed.
#[derive(Clone, Debug, PartialEq, Eq)]
pub enum Rule {
    /// Nothing is visited.
    Blank,
    /// The hooks are called on the node itself; it has no sub-values to
    /// traverse.
    Trivial,
    /// A container: every sub-value is traversed in order, and no hook is
    /// called on the container itself.
    Each,
    /// A declared type: its synthesized routine is run.
    Derived(Routine),
}

/// The rule of the type with the identity `ty`.
#[derive(Clone, Debug, PartialEq, Eq)]
pub struct TypeRule {
    pub ty: u64,
    pub rule: Rule,
}

/// A traversal function that a step can name by its path.
#[derive(Clone, Debug, PartialEq, Eq)]
pub struct Function {
    pub path: String,
    pub rule: Rule,
}

/// The rules by which values are traversed. Of several rules for one type,
/// and of several functions at one path, the first counts.
#[derive(Clone, Debug, PartialEq, Eq)]
pub struct Schema {
    pub types: Vec<TypeRule>,
    pub functions: Vec<Function>,
}

/// The position of the first rule from `from` on that is for the type `ty`,
/// or the number of rules where there is none.
pub open spec fn type_index(types: Seq<TypeRule>, ty: u64, from: int) -> int
    decreases types.len() - from,
{
    if from < 0 || from >= types.len() {
        types.len() as int
    } else if types[from].ty == ty {
        from
    } else {
        type_index(types, ty, from + 1)
    }
}

/// The position of the first function from `from` on that is at `path`, or
/// the number of functions where there is none.
pub open spec fn function_index(functions: Seq<Function>, path: Seq<char>, from: int) -> int
    decreases functions.len() - from,
{
    if from < 0 || from >= functions.len() {
        functions.len() as int
    } else if functions[from].path@ == path {
        from
    } else {
        function_index(functions, path, from + 1)
    }
}

impl Schema {
    /// The rule of the type `ty`, or `None` where the schema has none.
    pub open spec fn type_rule(self, ty: u64) -> Option<Rule> {
        let at = type_index(self.types@, ty, 0);
        if at < self.types@.len() {
            Some(self.types@[at].rule)
        } else {
            None
        }
    }

    /// The rule of the function at `path`, or `None` where the schema has
    /// none.
    pub open spec fn function_rule(self, path: Seq<char>) -> Option<Rule> {
        let at = function_index(self.functions@, path, 0);
        if at < self.functions@.len() {
            Some(self.functions@[at].rule)
        } else {
            None
        }
    }

    /// A schema without rules.
    pub fn new() -> (schema: Schema)
        ensures
            schema.types@.len() == 0,
            schema.functions@.len() == 0,
    {
        Schema { types: Vec::new(), functions: Vec::new() }
    }

    /// Looks up the rule of the type `ty`.
    pub fn rule_for(&self, ty: u64) -> (rule: Option<&Rule>)
        ensures
            match rule {
                Some(found) => self.type_rule(ty) == Some(*found),
                None => self.type_rule(ty) is None,
            },
    {
        let mut i: usize = 0;
        while i < self.types.len()
            invariant
                i <= self.types.len(),
                type_index(self.types@, ty, i as int) == type_index(self.types@, ty, 0),
            decreases self.types.len() - i,
        {
            if self.types[i].ty == ty {
                return Some(&self.types[i].rule);
            }
            i = i + 1;
        }
        None
    }

    /// Looks up the traversal function at `path`.
    pub fn function_for(&self, path: &String) -> (rule: Option<&Rule>)
        ensures
            match rule {
                Some(found) => self.function_rule(path@) == Some(*found),
                None => self.function_rule(path@) is None,
            },
    {
        let mut i: usize = 0;
        while i < self.functions.len()
            invariant
                i <= self.functions.len(),
                function_index(self.functions@, path@, i as int) == function_index(
                    self.functions@,
                    path@,
                    0,
                ),
            decreases self.functions.len() - i,
        {
            if self.functions[i].path == *path {
                return Some(&self.functions[i].rule);
            }
            i = i + 1;
        }
        None
    }
}

} // verus!
