use vstd::prelude::*;
use crate::element::Element;
use crate::errors::ZyxtError;
use crate::position::Position;
use crate::scope::{frames_view, frames_unique, frame_unique, frame_get, env_get, declared, assigned, frames_declare, frames_set, frames_get, frames_delete};
use crate::typeobj::{Type, named_type};
use crate::element::type_view;

verus! {

/// The names the language starts with: its primitive types.
pub open spec fn prim_names() -> Seq<Seq<char>> {
    seq![
        "str"@, "i8"@, "i16"@, "i32"@, "i64"@, "i128"@, "isize"@, "ibig"@, "u8"@, "u16"@,
        "u32"@, "u64"@, "u128"@, "usize"@, "ubig"@, "f32"@, "f64"@, "bool"@, "#null"@, "#any"@,
        "type"@,
    ]
}

/// The primitive type names, in order.
pub fn prim_name_list() -> (res: Vec<&'static str>)
    ensures
        res@.len() == prim_names().len(),
        forall|i: int| 0 <= i < res@.len() ==> (#[trigger] res@[i])@ == prim_names()[i],
{
    let res = vec![
        "str", "i8", "i16", "i32", "i64", "i128", "isize", "ibig", "u8", "u16", "u32", "u64",
        "u128", "usize", "ubig", "f32", "f64", "bool", "#null", "#any", "type",
    ];
    proof {
        assert(res@.len() == 21);
        assert forall|i: int| 0 <= i < res@.len() implies (#[trigger] res@[i])@ == prim_names()[i] by {
        }
    }
    res
}

/// What a call leaves on its frame: where it was made, its text, its arguments.
#[derive(Debug)]
pub struct FrameData<T> {
    pub position: Position,
    pub raw_call: String,
    pub args: Vec<(String, T)>,
}

/// The state of the type checker or the interpreter: the frames of named
/// values, the deferred blocks of each frame, what each frame was called
/// with, and the lines the program printed.
#[derive(Debug)]
pub struct InterpreterData<T> {
    pub heap: Vec<Vec<(String, T)>>,
    pub defer: Vec<Vec<Vec<Element>>>,
    pub frame_data: Vec<Option<FrameData<T>>>,
    pub out: Vec<String>,
}

impl<T> InterpreterData<T> {
    /// The frames as sequences of name–value entries.
    pub open spec fn frames(&self) -> Seq<Seq<(String, T)>> {
        frames_view(self.heap@)
    }

    /// There is a frame of names and a list of deferred blocks to add to,
    /// and no frame binds a name twice.
    pub open spec fn wf(&self) -> bool {
        &&& frames_unique(self.frames())
        &&& self.heap@.len() >= 1
        &&& self.defer@.len() >= 1
    }
}

impl<T: Clone> InterpreterData<T> {
    /// Adds a frame: an empty set of names, no deferred blocks, and the call data.
    pub fn add_frame(&mut self, frame_data: Option<FrameData<T>>)
        requires
            old(self).wf(),
        ensures
            final(self).wf(),
            final(self).heap@.len() == old(self).heap@.len() + 1,
            final(self).frames() == old(self).frames().push(Seq::empty()),
            final(self).defer@.len() == old(self).defer@.len() + 1,
            final(self).defer@.drop_last() == old(self).defer@,
            final(self).defer@.last()@ == Seq::<Vec<Element>>::empty(),
            final(self).frame_data@ == old(self).frame_data@.push(frame_data),
            final(self).out == old(self).out,
    {
        self.heap.push(Vec::new());
        self.defer.push(Vec::new());
        self.frame_data.push(frame_data);
        proof {
            assert(self.defer@.drop_last() =~= old(self).defer@);
            assert(self.frames() =~= old(self).frames().push(Seq::empty()));
            assert forall|i: int| 0 <= i < self.frames().len() implies frame_unique(#[trigger] self.frames()[i]) by {
                if i < old(self).frames().len() {
                    assert(self.frames()[i] == old(self).frames()[i]);
                }
            }
        }
    }

    /// Gives a name a value in the innermost frame.
    pub fn declare_val(&mut self, name: &str, value: &T)
        requires
            old(self).wf(),
        ensures
            final(self).wf(),
            final(self).heap@.len() == old(self).heap@.len(),
            frame_get(final(self).frames().last(), name@) matches Some(v) && cloned(*value, v)
                && declared(old(self).frames(), final(self).frames(), name@, v),
            final(self).defer == old(self).defer,
            final(self).frame_data == old(self).frame_data,
            final(self).out == old(self).out,
    {
        frames_declare(&mut self.heap, name, value);
    }

    /// Gives the innermost binding of a name a new value, or error 3.0 if
    /// no frame binds the name.
    pub fn set_val(&mut self, name: &String, value: &T, position: &Position, raw: &String) -> (res:
        Result<(), ZyxtError>)
        requires
            old(self).wf(),
        ensures
            final(self).wf(),
            final(self).heap@.len() == old(self).heap@.len(),
            final(self).defer == old(self).defer,
            final(self).frame_data == old(self).frame_data,
            final(self).out == old(self).out,
            match env_get(old(self).frames(), name@) {
                Some(_) => {
                    &&& res is Ok
                    &&& (env_get(final(self).frames(), name@) matches Some(v) && cloned(*value, v)
                        && assigned(old(self).frames(), final(self).frames(), name@, v)
                        && crate::scope::set_innermost(old(self).frames(), final(self).frames(), *name, v))
                },
                None => {
                    &&& final(self).heap@ == old(self).heap@
                    &&& (res matches Err(e) && e.code@ == "3.0"@ && e.message@
                        == "Undefined variable `"@ + name@ + "`"@ && e.position == Some(*position)
                        && e.raw == *raw)
                },
            },
    {
        frames_set(&mut self.heap, name, value, position, raw)
    }

    /// The value of the innermost binding of a name, or error 3.0 if no frame
    /// binds the name.
    pub fn get_val(&self, name: &String, position: &Position, raw: &String) -> (res: Result<
        T,
        ZyxtError,
    >)
        ensures
            match env_get(self.frames(), name@) {
                Some(v) => res matches Ok(r) && cloned(v, r),
                None => res matches Err(e) && e.code@ == "3.0"@ && e.message@
                    == "Undefined variable `"@ + name@ + "`"@ && e.position == Some(*position)
                    && e.raw == *raw,
            },
    {
        frames_get(&self.heap, name, position, raw)
    }

    /// Removes a name from the innermost frame and gives back its value, or
    /// error 3.0 if that frame does not bind it.
    pub fn delete_val(&mut self, name: &String, position: &Position, raw: &String) -> (res: Result<
        T,
        ZyxtError,
    >)
        requires
            old(self).wf(),
        ensures
            final(self).wf(),
            final(self).heap@.len() == old(self).heap@.len(),
            final(self).defer == old(self).defer,
            final(self).frame_data == old(self).frame_data,
            final(self).out == old(self).out,
            final(self).frames().drop_last() == old(self).frames().drop_last(),
            match frame_get(old(self).frames().last(), name@) {
                Some(v) => res == Ok::<T, ZyxtError>(v) && frame_get(
                    final(self).frames().last(),
                    name@,
                ) is None && forall|k: Seq<char>| k != name@ ==> #[trigger] frame_get(
                    final(self).frames().last(),
                    k,
                ) == frame_get(old(self).frames().last(), k),
                None => {
                    &&& final(self).heap@ == old(self).heap@
                    &&& (res matches Err(e) && e.code@ == "3.0"@ && e.message@ == "Undefined variable `"@ + name@ + "`"@
                        && e.position == Some(*position) && e.raw == *raw)
                },
            },
    {
        frames_delete(&mut self.heap, name, position, raw)
    }

    /// Adds a block to run when the innermost frame is left.
    pub fn add_defer(&mut self, content: Vec<Element>)
        requires
            old(self).wf(),
        ensures
            final(self).wf(),
            final(self).heap == old(self).heap,
            final(self).frame_data == old(self).frame_data,
            final(self).out == old(self).out,
            final(self).defer@.len() == old(self).defer@.len(),
            final(self).defer@.last()@ == old(self).defer@.last()@.push(content),
            final(self).defer@.drop_last() == old(self).defer@.drop_last(),
    {
        let last = self.defer.len() - 1;
        let mut blocks: Vec<Vec<Element>> = Vec::new();
        std::mem::swap(&mut blocks, &mut self.defer[last]);
        blocks.push(content);
        self.defer.set(last, blocks);
        proof {
            assert(self.defer@.drop_last() =~= old(self).defer@.drop_last());
        }
    }
}

impl InterpreterData<Type> {
    /// The type checker's starting state: every primitive type name bound to
    /// the type `type` in the outermost frame, and an empty frame above it.
    pub fn default_type() -> (res: InterpreterData<Type>)
        ensures
            res.wf(),
            res.frames().len() == 2,
            res.frames()[1] == Seq::<(String, Type)>::empty(),
            res.out@.len() == 0,
            forall|i: int| 0 <= i < prim_names().len() ==> ((#[trigger] frame_get(res.frames()[0], prim_names()[i])) matches Some(t) && type_view(t) == named_type("type"@)),
            forall|k: Seq<char>| #[trigger] frame_get(res.frames()[0], k) is Some ==> prim_names().contains(k),
            res.defer@.len() == 2,
            forall|i: int| 0 <= i < 2 ==> (#[trigger] res.defer@[i])@.len() == 0,
            res.frame_data@ == seq![None::<crate::interpreter_data::FrameData<Type>>],
    {
        let names = prim_name_list();
        let mut base: Vec<(String, Type)> = Vec::new();
        let mut v = InterpreterData {
            heap: Vec::new(),
            defer: Vec::new(),
            frame_data: Vec::new(),
            out: Vec::new(),
        };
        let mut heap: Vec<Vec<(String, Type)>> = vec![Vec::new()];
        let mut i: usize = 0;
        proof {
            assert(frames_unique(frames_view(heap@))) by {
                assert forall|x: int| 0 <= x < frames_view(heap@).len() implies frame_unique(#[trigger] frames_view(heap@)[x]) by {
                    assert(frames_view(heap@)[x] == heap@[x]@);
                }
            }
            assert(frames_view(heap@)[0] =~= Seq::<(String, Type)>::empty());
            crate::scope::lemma_no_names::<Type>(prim_names());
        }
        while i < names.len()
            invariant
                names@.len() == prim_names().len(),
                forall|j: int| 0 <= j < names@.len() ==> (#[trigger] names@[j])@ == prim_names()[j],
                0 <= i <= names@.len(),
                heap@.len() == 1,
                frames_unique(frames_view(heap@)),
                forall|j: int| 0 <= j < i ==> ((#[trigger] frame_get(frames_view(heap@)[0], prim_names()[j])) matches Some(t) && type_view(t) == named_type("type"@)),
                forall|k: Seq<char>| #[trigger] frame_get(frames_view(heap@)[0], k) is Some ==> prim_names().take(i as int).contains(k),
            decreases names@.len() - i,
        {
            let t = Type::from_str("type");
            let ghost before = frames_view(heap@);
            frames_declare(&mut heap, names[i], &t);
            proof {
                let after = frames_view(heap@);
                crate::scope::lemma_declare_keeps_names(before, after, frame_get(after.last(), names@[i as int]@).unwrap(), prim_names(), i as int);
                assert forall|j: int| 0 <= j < i + 1 implies ((#[trigger] frame_get(after[0], prim_names()[j])) matches Some(t2) && type_view(t2) == named_type("type"@)) by {
                    if prim_names()[j] != names@[i as int]@ {
                        assert(frame_get(after.last(), prim_names()[j]) == frame_get(before.last(), prim_names()[j]));
                    }
                }
            }
            i = i + 1;
        }
        v.heap = heap;
        v.defer = vec![Vec::new()];
        proof {
            assert(v.wf());
            assert(prim_names().take(prim_names().len() as int) =~= prim_names());
            assert(v.frame_data@ == Seq::<Option<crate::interpreter_data::FrameData<Type>>>::empty());
        }
        let ghost base_frame = v.frames()[0];
        v.add_frame(None);
        proof {
            assert(v.frames()[0] == base_frame);
        }
        v
    }

    /// Leaves the innermost frame: its names, deferred blocks and call data go.
    /// The state stays well formed where a frame is left beside the one that
    /// went.
    pub fn pop_frame(&mut self)
        requires
            old(self).wf(),
        ensures
            old(self).heap@.len() > 1 && old(self).defer@.len() > 1 ==> final(self).wf(),
            frames_unique(final(self).frames()),
            final(self).heap@.len() == old(self).heap@.len() - 1,
            final(self).frames() == old(self).frames().drop_last(),
            final(self).defer@ == old(self).defer@.drop_last(),
            final(self).frame_data@ == if old(self).frame_data@.len() > 0 {
                old(self).frame_data@.drop_last()
            } else {
                old(self).frame_data@
            },
            final(self).out == old(self).out,
    {
        self.heap.pop();
        self.frame_data.pop();
        self.defer.pop();
        proof {
            assert(self.frames() =~= old(self).frames().drop_last());
            assert forall|i: int| 0 <= i < self.frames().len() implies frame_unique(#[trigger] self.frames()[i]) by {
                assert(self.frames()[i] == old(self).frames()[i]);
            }
        }
    }
}

/// A frame added and then left, the type checker's frames are as they were.
pub proof fn law_add_then_pop_frame(before: Seq<Seq<(String, Type)>>, after_add: Seq<Seq<(String, Type)>>, after_pop: Seq<Seq<(String, Type)>>)
    requires
        after_add == before.push(Seq::empty()),
        after_pop == after_add.drop_last(),
    ensures
        after_pop == before,
{
    assert(before.push(Seq::empty()).drop_last() =~= before);
}

} // verus!
