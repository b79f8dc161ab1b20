use vstd::prelude::*;
use crate::errors::ZyxtError;
use crate::position::Position;
use crate::scope::{frames_view, frames_unique, frame_unique, frame_get, env_get, declared, assigned, frames_declare, frames_set, frames_get, frames_delete};
use crate::typeobj::{Type, named_type};
use crate::element::type_view;

verus! {

/// The primitive type names this store starts with.
pub open spec fn stack_prim_names() -> Seq<Seq<char>> {
    seq!["str"@, "i8"@, "i16"@, "i32"@, "i64"@, "i128"@, "isize"@, "u8"@, "u16"@, "u32"@, "u64"@, "u128"@, "usize"@, "f32"@, "f64"@, "#null"@, "#any"@, "type"@]
}

/// Sets of named values, innermost last (the oldest store of the type checker).
pub struct Stack<T>(pub Vec<Vec<(String, T)>>);

impl<T> Stack<T> {
    /// The sets of names, innermost last.
    pub open spec fn frames(&self) -> Seq<Seq<(String, T)>> {
        frames_view(self.0@)
    }

    /// No set binds a name twice.
    pub open spec fn wf(&self) -> bool {
        frames_unique(self.frames())
    }
}

impl<T: Clone> Stack<T> {
    /// Adds an empty set of names.
    pub fn add_set(&mut self)
        requires
            old(self).wf(),
        ensures
            final(self).wf(),
            final(self).frames() == old(self).frames().push(Seq::empty()),
    {
        self.0.push(Vec::new());
        proof {
            assert(self.frames() =~= old(self).frames().push(Seq::empty()));
            assert forall|i: int| 0 <= i < self.frames().len() implies frame_unique(#[trigger] self.frames()[i]) by {
                if i < old(self).frames().len() {
                    assert(self.frames()[i] == old(self).frames()[i]);
                }
            }
        }
    }

    /// Removes the innermost set of names.
    pub fn pop_set(&mut self)
        requires
            old(self).wf(),
        ensures
            final(self).wf(),
            old(self).frames().len() > 0 ==> final(self).frames() == old(self).frames().drop_last(),
            old(self).frames().len() == 0 ==> final(self).frames() == old(self).frames(),
    {
        self.0.pop();
        proof {
            if old(self).frames().len() > 0 {
                assert(self.frames() =~= old(self).frames().drop_last());
            } else {
                assert(self.frames() =~= old(self).frames());
            }
            assert forall|i: int| 0 <= i < self.frames().len() implies frame_unique(#[trigger] self.frames()[i]) by {
                assert(self.frames()[i] == old(self).frames()[i]);
            }
        }
    }

    /// Gives a name a value in the innermost set.
    pub fn declare_val(&mut self, name: &String, value: &T)
        requires
            old(self).wf(),
            old(self).frames().len() > 0,
        ensures
            final(self).wf(),
            frame_get(final(self).frames().last(), name@) matches Some(v) && cloned(*value, v)
                && declared(old(self).frames(), final(self).frames(), name@, v),
    {
        frames_declare(&mut self.0, name.as_str(), value);
    }

    /// Gives the innermost binding of a name a new value, or error 3.0 if no
    /// set binds it.
    pub fn set_val(&mut self, name: &String, value: &T, position: &Position) -> (res: Result<(), ZyxtError>)
        requires
            old(self).wf(),
        ensures
            final(self).wf(),
            match env_get(old(self).frames(), name@) {
                Some(_) => {
                    &&& res is Ok
                    &&& (env_get(final(self).frames(), name@) matches Some(v) && cloned(*value, v)
                        && crate::scope::set_innermost(old(self).frames(), final(self).frames(), *name, v))
                },
                None => {
                    &&& final(self).0@ == old(self).0@
                    &&& (res matches Err(e) && e.code@ == "3.0"@ && e.message@ == "Undefined variable `"@ + name@ + "`"@
                        && e.position == Some(*position) && e.raw@ == Seq::<char>::empty())
                },
            },
    {
        let raw = String::new();
        frames_set(&mut self.0, name, value, position, &raw)
    }

    /// The value of the innermost binding of a name, or error 3.0 if no set
    /// binds it.
    pub fn get_val(&mut self, name: &String, position: &Position) -> (res: Result<T, ZyxtError>)
        ensures
            final(self).0 == old(self).0,
            match env_get(old(self).frames(), name@) {
                Some(v) => res matches Ok(r) && cloned(v, r),
                None => res matches Err(e) && e.code@ == "3.0"@ && e.message@ == "Undefined variable `"@ + name@ + "`"@
                    && e.position == Some(*position) && e.raw@ == Seq::<char>::empty(),
            },
    {
        let raw = String::new();
        frames_get(&self.0, name, position, &raw)
    }

    /// Removes a name from the innermost set and gives back its value, or
    /// error 3.0 if that set does not bind it.
    pub fn delete_val(&mut self, name: &String, position: &Position) -> (res: Result<T, ZyxtError>)
        requires
            old(self).wf(),
            old(self).frames().len() > 0,
        ensures
            final(self).wf(),
            final(self).frames().drop_last() == old(self).frames().drop_last(),
            match frame_get(old(self).frames().last(), name@) {
                Some(v) => res == Ok::<T, ZyxtError>(v) && frame_get(final(self).frames().last(), name@) is None
                    && forall|k: Seq<char>| k != name@ ==> #[trigger] frame_get(final(self).frames().last(), k) == frame_get(
                    old(self).frames().last(),
                    k,
                ),
                None => {
                    &&& final(self).0@ == old(self).0@
                    &&& (res matches Err(e) && e.code@ == "3.0"@ && e.message@ == "Undefined variable `"@ + name@ + "`"@
                        && e.position == Some(*position) && e.raw@ == Seq::<char>::empty())
                },
            },
    {
        let raw = String::new();
        frames_delete(&mut self.0, name, position, &raw)
    }
}

impl Stack<Type> {
    /// The type checker's starting store: every primitive type name bound to
    /// the type `type`.
    pub fn default_type() -> (res: Stack<Type>)
        ensures
            res.wf(),
            res.frames().len() == 1,
            forall|i: int| 0 <= i < stack_prim_names().len() ==> ((#[trigger] frame_get(res.frames()[0], stack_prim_names()[i])) matches Some(t) && type_view(t) == named_type("type"@)),
            forall|k: Seq<char>| #[trigger] frame_get(res.frames()[0], k) is Some ==> stack_prim_names().contains(k),
    {
        let names: Vec<&str> = vec!["str", "i8", "i16", "i32", "i64", "i128", "isize", "u8", "u16", "u32", "u64", "u128", "usize", "f32", "f64", "#null", "#any", "type"];
        let mut v: Stack<Type> = Stack(vec![Vec::new()]);
        proof {
            assert(names@.len() == stack_prim_names().len());
            assert forall|j: int| 0 <= j < names@.len() implies (#[trigger] names@[j])@ == stack_prim_names()[j] by {}
            assert forall|x: int| 0 <= x < v.frames().len() implies frame_unique(#[trigger] v.frames()[x]) by {
                assert(v.frames()[x] == v.0@[x]@);
            }
            assert(v.frames()[0] =~= Seq::<(String, Type)>::empty());
            crate::scope::lemma_no_names::<Type>(stack_prim_names());
        }
        let mut i: usize = 0;
        while i < names.len()
            invariant
                names@.len() == stack_prim_names().len(),
                forall|j: int| 0 <= j < names@.len() ==> (#[trigger] names@[j])@ == stack_prim_names()[j],
                0 <= i <= names@.len(),
                v.frames().len() == 1,
                v.wf(),
                forall|j: int| 0 <= j < i ==> ((#[trigger] frame_get(v.frames()[0], stack_prim_names()[j])) matches Some(t) && type_view(t) == named_type("type"@)),
                forall|k: Seq<char>| #[trigger] frame_get(v.frames()[0], k) is Some ==> stack_prim_names().take(i as int).contains(k),
            decreases names@.len() - i,
        {
            let t = Type::from_str("type");
            let ghost before = v.frames();
            frames_declare(&mut v.0, names[i], &t);
            proof {
                let after = v.frames();
                crate::scope::lemma_declare_keeps_names(before, after, frame_get(after.last(), names@[i as int]@).unwrap(), stack_prim_names(), i as int);
                assert forall|j: int| 0 <= j < i + 1 implies ((#[trigger] frame_get(after[0], stack_prim_names()[j])) matches Some(t2) && type_view(t2) == named_type("type"@)) by {
                    if stack_prim_names()[j] != names@[i as int]@ {
                        assert(frame_get(after.last(), stack_prim_names()[j]) == frame_get(before.last(), stack_prim_names()[j]));
                    }
                }
            }
            i = i + 1;
        }
        proof {
            assert(stack_prim_names().take(stack_prim_names().len() as int) =~= stack_prim_names());
        }
        v
    }
}

} // verus!
