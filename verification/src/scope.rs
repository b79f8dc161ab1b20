use vstd::prelude::*;
use crate::errors::{ZyxtError, error_3_0};
use crate::position::Position;

verus! {

/// The value a frame gives a name: that of the last entry of the name.
pub open spec fn frame_get<T>(f: Seq<(String, T)>, k: Seq<char>) -> Option<T>
    decreases f.len(),
{
    if f.len() == 0 {
        None
    } else if f.last().0@ == k {
        Some(f.last().1)
    } else {
        frame_get(f.drop_last(), k)
    }
}

/// Whether `after` is `before` with the first entry of the name given the
/// value, or, where no entry has that name, with an entry of the name and
/// the value added at the end.
pub open spec fn set_first_named<T>(before: Seq<(String, T)>, after: Seq<(String, T)>, name: String, value: T) -> bool {
    ||| exists|i: int| {
        &&& 0 <= i < before.len()
        &&& (#[trigger] before[i]).0@ == name@
        &&& forall|j: int| 0 <= j < i ==> (#[trigger] before[j]).0@ != name@
        &&& after == before.update(i, (name, value))
    }
    ||| (forall|j: int| 0 <= j < before.len() ==> (#[trigger] before[j]).0@ != name@) && after == before.push((name, value))
}

/// The value a stack of frames gives a name: that of the innermost (last)
/// frame that has it.
pub open spec fn env_get<T>(frames: Seq<Seq<(String, T)>>, k: Seq<char>) -> Option<T>
    decreases frames.len(),
{
    if frames.len() == 0 {
        None
    } else {
        match frame_get(frames.last(), k) {
            Some(v) => Some(v),
            None => env_get(frames.drop_last(), k),
        }
    }
}

/// The frames as sequences of entries.
pub open spec fn frames_view<T>(h: Seq<Vec<(String, T)>>) -> Seq<Seq<(String, T)>> {
    h.map_values(|f: Vec<(String, T)>| f@)
}

/// No name occurs twice in the frame.
pub open spec fn frame_unique<T>(f: Seq<(String, T)>) -> bool {
    forall|i: int, j: int| 0 <= i < j < f.len() ==> f[i].0@ != f[j].0@
}

/// No name occurs twice in any frame.
pub open spec fn frames_unique<T>(frames: Seq<Seq<(String, T)>>) -> bool {
    forall|i: int| 0 <= i < frames.len() ==> frame_unique(#[trigger] frames[i])
}

/// `after` is `before` with `name` given the value `v` in its last frame.
pub open spec fn declared<T>(
    before: Seq<Seq<(String, T)>>,
    after: Seq<Seq<(String, T)>>,
    name: Seq<char>,
    v: T,
) -> bool {
    &&& before.len() > 0
    &&& after.len() == before.len()
    &&& after.drop_last() == before.drop_last()
    &&& frame_get(after.last(), name) == Some(v)
    &&& forall|k: Seq<char>| k != name ==> #[trigger] frame_get(after.last(), k) == frame_get(
        before.last(),
        k,
    )
}

/// `after` is `before` with the innermost binding of `name` changed to `v`,
/// every frame keeping the names it had.
pub open spec fn assigned<T>(
    before: Seq<Seq<(String, T)>>,
    after: Seq<Seq<(String, T)>>,
    name: Seq<char>,
    v: T,
) -> bool {
    &&& after.len() == before.len()
    &&& env_get(after, name) == Some(v)
    &&& forall|k: Seq<char>| k != name ==> #[trigger] env_get(after, k) == env_get(before, k)
}

/// Declaring the `i`th of a list of names in a single frame that binds only
/// names before it in the list leaves the frame binding only names up to it.
pub proof fn lemma_declare_keeps_names<T>(
    before: Seq<Seq<(String, T)>>,
    after: Seq<Seq<(String, T)>>,
    v: T,
    names: Seq<Seq<char>>,
    i: int,
)
    requires
        before.len() == 1,
        0 <= i < names.len(),
        declared(before, after, names[i], v),
        forall|k: Seq<char>| #[trigger] frame_get(before[0], k) is Some ==> names.take(i).contains(k),
    ensures
        forall|k: Seq<char>| #[trigger] frame_get(after[0], k) is Some ==> names.take(i + 1).contains(k),
{
    assert forall|k: Seq<char>| #[trigger] frame_get(after[0], k) is Some implies names.take(i + 1).contains(k) by {
        if k == names[i] {
            assert(names.take(i + 1)[i] == k);
        } else {
            assert(frame_get(after.last(), k) == frame_get(before.last(), k));
            assert(names.take(i).contains(k));
            let j = choose|j: int| 0 <= j < names.take(i).len() && names.take(i)[j] == k;
            assert(names.take(i + 1)[j] == k);
        }
    }
}

/// What the list of names bound in a frame at the start is when no name
/// has been declared.
pub proof fn lemma_no_names<T>(names: Seq<Seq<char>>)
    ensures
        forall|k: Seq<char>| #[trigger] frame_get(Seq::<(String, T)>::empty(), k) is Some ==> names.take(0).contains(k),
{
}

/// `after` is `before` with the entry of the name in the innermost frame
/// that binds it replaced by the name and the value; every other entry of
/// every frame is kept.
pub open spec fn set_innermost<T>(before: Seq<Seq<(String, T)>>, after: Seq<Seq<(String, T)>>, name: String, v: T) -> bool {
    env_find(before, name@) matches Some(i) && frame_find(before[i], name@) matches Some(j) && after == before.update(
        i,
        before[i].update(j, (name, v)),
    )
}

/// The entry of a frame at which a name stands, if it does: the last one.
pub open spec fn frame_find<T>(f: Seq<(String, T)>, k: Seq<char>) -> Option<int>
    decreases f.len(),
{
    if f.len() == 0 {
        None
    } else if f.last().0@ == k {
        Some(f.len() - 1)
    } else {
        frame_find(f.drop_last(), k)
    }
}

proof fn lemma_frame_find<T>(f: Seq<(String, T)>, k: Seq<char>)
    ensures
        frame_find(f, k) is None <==> frame_get(f, k) is None,
        frame_find(f, k) is None ==> forall|j: int| 0 <= j < f.len() ==> f[j].0@ != k,
        frame_find(f, k) matches Some(i) ==> 0 <= i < f.len() && f[i].0@ == k && frame_get(f, k)
            == Some(f[i].1) && forall|j: int| i < j < f.len() ==> f[j].0@ != k,
    decreases f.len(),
{
    if f.len() > 0 {
        lemma_frame_find(f.drop_last(), k);
        if f.last().0@ != k {
            assert forall|j: int| 0 <= j < f.len() - 1 implies f[j] == f.drop_last()[j] by {}
        }
    }
}

/// Changing the value at the entry where a name last stands.
proof fn lemma_frame_update<T>(f: Seq<(String, T)>, i: int, e: (String, T))
    requires
        0 <= i < f.len(),
        e.0@ == f[i].0@,
        forall|j: int| i < j < f.len() ==> f[j].0@ != e.0@,
    ensures
        frame_get(f.update(i, e), e.0@) == Some(e.1),
        forall|k: Seq<char>| k != e.0@ ==> #[trigger] frame_get(f.update(i, e), k) == frame_get(f, k),
    decreases f.len(),
{
    let g = f.update(i, e);
    if i < f.len() - 1 {
        assert(g.drop_last() =~= f.drop_last().update(i, e));
        assert(g.last() == f.last());
        lemma_frame_update(f.drop_last(), i, e);
        assert forall|k: Seq<char>| k != e.0@ implies #[trigger] frame_get(g, k) == frame_get(f, k) by {
            assert(frame_get(g.drop_last(), k) == frame_get(f.drop_last(), k));
        }
    } else {
        assert(g.drop_last() =~= f.drop_last());
        assert forall|k: Seq<char>| k != e.0@ implies #[trigger] frame_get(g, k) == frame_get(f, k) by {
            assert(g.last().0@ == e.0@);
            assert(f.last().0@ == e.0@);
        }
    }
}

/// Adding an entry at the end of a frame.
proof fn lemma_frame_push<T>(f: Seq<(String, T)>, e: (String, T))
    ensures
        frame_get(f.push(e), e.0@) == Some(e.1),
        forall|k: Seq<char>| k != e.0@ ==> #[trigger] frame_get(f.push(e), k) == frame_get(f, k),
{
    assert(f.push(e).drop_last() =~= f);
}

/// Removing the only entry of a name from a frame.
proof fn lemma_frame_remove<T>(f: Seq<(String, T)>, i: int)
    requires
        0 <= i < f.len(),
        frame_unique(f),
    ensures
        frame_get(f.remove(i), f[i].0@) is None,
        forall|k: Seq<char>| k != f[i].0@ ==> #[trigger] frame_get(f.remove(i), k) == frame_get(f, k),
        frame_unique(f.remove(i)),
    decreases f.len(),
{
    let g = f.remove(i);
    if i < f.len() - 1 {
        assert(g.drop_last() =~= f.drop_last().remove(i));
        assert(g.last() == f.last());
        assert(f.drop_last()[i] == f[i]);
        lemma_frame_remove(f.drop_last(), i);
        assert(f.last().0@ != f[i].0@);
        assert forall|k: Seq<char>| k != f[i].0@ implies #[trigger] frame_get(g, k) == frame_get(f, k) by {
            assert(frame_get(g.drop_last(), k) == frame_get(f.drop_last(), k));
        }
    } else {
        assert(g =~= f.drop_last());
        lemma_frame_find(g, f[i].0@);
        assert forall|k: Seq<char>| k != f[i].0@ implies #[trigger] frame_get(g, k) == frame_get(f, k) by {
        }
    }
}

/// The lookup in frames where only the last frame changed, as seen from the
/// lookups in that frame.
proof fn lemma_env_last<T>(a: Seq<Seq<(String, T)>>, b: Seq<Seq<(String, T)>>, k: Seq<char>)
    requires
        a.len() == b.len(),
        a.len() > 0,
        a.drop_last() == b.drop_last(),
        frame_get(a.last(), k) == frame_get(b.last(), k),
    ensures
        env_get(a, k) == env_get(b, k),
{
}

/// After a declaration, the name has the declared value, and every other name
/// the value it had.
pub proof fn law_declare_then_get<T>(
    before: Seq<Seq<(String, T)>>,
    after: Seq<Seq<(String, T)>>,
    name: Seq<char>,
    v: T,
)
    requires
        declared(before, after, name, v),
    ensures
        env_get(after, name) == Some(v),
        forall|k: Seq<char>| k != name ==> #[trigger] env_get(after, k) == env_get(before, k),
{
    assert forall|k: Seq<char>| k != name implies #[trigger] env_get(after, k) == env_get(before, k) by {
        lemma_env_last(after, before, k);
    }
}

/// A frame added, a name declared in it, and the frame taken off again leave
/// the frames as they were: a declaration in an inner frame does not outlive it.
pub proof fn law_inner_declaration_is_forgotten<T>(
    before: Seq<Seq<(String, T)>>,
    inner: Seq<Seq<(String, T)>>,
    name: Seq<char>,
    v: T,
)
    requires
        declared(before.push(Seq::empty()), inner, name, v),
    ensures
        inner.drop_last() == before,
{
    assert(before.push(Seq::empty()).drop_last() =~= before);
}

/// The position of the innermost frame that binds a name, if one does.
pub open spec fn env_find<T>(frames: Seq<Seq<(String, T)>>, k: Seq<char>) -> Option<int>
    decreases frames.len(),
{
    if frames.len() == 0 {
        None
    } else if frame_get(frames.last(), k) is Some {
        Some(frames.len() - 1)
    } else {
        env_find(frames.drop_last(), k)
    }
}

proof fn lemma_env_find<T>(frames: Seq<Seq<(String, T)>>, k: Seq<char>)
    ensures
        env_find(frames, k) is None <==> env_get(frames, k) is None,
        env_find(frames, k) matches Some(i) ==> 0 <= i < frames.len() && env_get(frames, k)
            == frame_get(frames[i], k) && frame_get(frames[i], k) is Some && forall|j: int|
            i < j < frames.len() ==> frame_get(#[trigger] frames[j], k) is None,
    decreases frames.len(),
{
    if frames.len() > 0 {
        lemma_env_find(frames.drop_last(), k);
        if frame_get(frames.last(), k) is None {
            assert forall|j: int| 0 <= j < frames.len() - 1 implies frames[j] == frames.drop_last()[j] by {}
        }
    }
}

/// Changing one frame: lookups of names the frame does not decide, or that
/// a later frame decides, are unchanged.
proof fn lemma_env_update<T>(
    frames: Seq<Seq<(String, T)>>,
    i: int,
    g: Seq<(String, T)>,
    name: Seq<char>,
    v: T,
)
    requires
        0 <= i < frames.len(),
        forall|j: int| i < j < frames.len() ==> frame_get(#[trigger] frames[j], name) is None,
        frame_get(g, name) == Some(v),
        forall|k: Seq<char>| k != name ==> #[trigger] frame_get(g, k) == frame_get(frames[i], k),
    ensures
        env_get(frames.update(i, g), name) == Some(v),
        forall|k: Seq<char>| k != name ==> #[trigger] env_get(frames.update(i, g), k) == env_get(frames, k),
    decreases frames.len(),
{
    let u = frames.update(i, g);
    if i < frames.len() - 1 {
        assert(u.drop_last() =~= frames.drop_last().update(i, g));
        assert(u.last() == frames.last());
        assert forall|j: int| i < j < frames.drop_last().len() implies frame_get(#[trigger] frames.drop_last()[j], name) is None by {
            assert(frames.drop_last()[j] == frames[j]);
        }
        lemma_env_update(frames.drop_last(), i, g, name, v);
        assert(frame_get(frames[frames.len() - 1], name) is None);
        assert forall|k: Seq<char>| k != name implies #[trigger] env_get(u, k) == env_get(frames, k) by {
            assert(env_get(u.drop_last(), k) == env_get(frames.drop_last(), k));
        }
    } else {
        assert(u.drop_last() =~= frames.drop_last());
        assert forall|k: Seq<char>| k != name implies #[trigger] env_get(u, k) == env_get(frames, k) by {
            assert(frame_get(u.last(), k) == frame_get(frames.last(), k));
        }
    }
}

/// The index, in a frame, of the entry of a name, if it has one.
fn frame_index<T>(f: &Vec<(String, T)>, name: &String) -> (res: Option<usize>)
    ensures
        res matches Some(i) ==> frame_find(f@, name@) == Some(i as int),
        res is None ==> frame_find(f@, name@) is None,
{
    let mut i: usize = f.len();
    proof {
        assert(f@.subrange(0, f@.len() as int) =~= f@);
    }
    while i > 0
        invariant
            0 <= i <= f@.len(),
            frame_find(f@, name@) == frame_find(f@.subrange(0, i as int), name@),
        decreases i,
    {
        let ghost sub = f@.subrange(0, i as int);
        if f[i - 1].0 == *name {
            return Some(i - 1);
        }
        proof {
            assert(sub.drop_last() =~= f@.subrange(0, i - 1));
        }
        i = i - 1;
    }
    None
}

/// Gives a name a value in the last frame: replaces its entry there if it has
/// one, else adds one.
pub fn frames_declare<T: Clone>(frames: &mut Vec<Vec<(String, T)>>, name: &str, value: &T)
    requires
        old(frames)@.len() > 0,
        frames_unique(frames_view(old(frames)@)),
    ensures
        frames_unique(frames_view(final(frames)@)),
        frame_get(frames_view(final(frames)@).last(), name@) matches Some(v) && cloned(*value, v)
            && declared(frames_view(old(frames)@), frames_view(final(frames)@), name@, v),
{
    let key = String::from_str(name);
    let last = frames.len() - 1;
    let mut frame: Vec<(String, T)> = Vec::new();
    std::mem::swap(&mut frame, &mut frames[last]);
    let ghost before_frame = frame@;
    proof {
        assert(before_frame == frames_view(old(frames)@)[last as int]);
        lemma_frame_find(before_frame, name@);
    }
    let v = value.clone();
    match frame_index(&frame, &key) {
        Some(i) => {
            frame.set(i, (key, v));
            proof {
                lemma_frame_update(before_frame, i as int, frame@[i as int]);
                assert(frame@ =~= before_frame.update(i as int, frame@[i as int]));
                assert forall|a: int, b: int| 0 <= a < b < frame@.len() implies frame@[a].0@ != frame@[b].0@ by {
                    assert(frame@[a].0@ == before_frame[a].0@);
                    assert(frame@[b].0@ == before_frame[b].0@);
                }
            }
        },
        None => {
            frame.push((key, v));
            proof {
                lemma_frame_push(before_frame, frame@.last());
                assert(frame@ =~= before_frame.push(frame@.last()));
            }
        },
    }
    frames.set(last, frame);
    proof {
        let a = frames_view(frames@);
        let b = frames_view(old(frames)@);
        assert(a.drop_last() =~= b.drop_last());
        assert(frames_unique(a)) by {
            assert forall|i: int| 0 <= i < a.len() implies frame_unique(#[trigger] a[i]) by {
                if i < a.len() - 1 {
                    assert(a[i] == b[i]);
                }
            }
        }
    }
}

/// The value the innermost frame that has the name gives it, or error 3.0
/// (undefined variable) at the given place.
pub fn frames_get<T: Clone>(
    frames: &Vec<Vec<(String, T)>>,
    name: &String,
    position: &Position,
    raw: &String,
) -> (res: Result<T, ZyxtError>)
    ensures
        match env_get(frames_view(frames@), name@) {
            Some(v) => res matches Ok(r) && cloned(v, r),
            None => res matches Err(e) && e.code@ == "3.0"@ && e.message@ == "Undefined variable `"@
                + name@ + "`"@ && e.position == Some(*position) && e.raw == *raw,
        },
{
    let ghost fv = frames_view(frames@);
    let mut i: usize = frames.len();
    proof {
        assert(fv.subrange(0, fv.len() as int) =~= fv);
    }
    while i > 0
        invariant
            0 <= i <= frames@.len(),
            fv == frames_view(frames@),
            env_get(fv, name@) == env_get(fv.subrange(0, i as int), name@),
        decreases i,
    {
        let ghost sub = fv.subrange(0, i as int);
        match frame_index(&frames[i - 1], name) {
            Some(j) => {
                proof {
                    lemma_frame_find(frames@[i - 1]@, name@);
                    assert(sub.last() == frames@[i - 1]@);
                }
                return Ok(frames[i - 1][j].1.clone());
            },
            None => {
                proof {
                    lemma_frame_find(frames@[i - 1]@, name@);
                    assert(sub.last() == frames@[i - 1]@);
                    assert(sub.drop_last() =~= fv.subrange(0, i - 1));
                }
            },
        }
        i = i - 1;
    }
    Err(error_3_0(name.clone()).with_pos_and_raw(position, raw))
}

/// Gives the innermost binding of a name a new value, or error 3.0
/// (undefined variable) at the given place if no frame binds it.
pub fn frames_set<T: Clone>(
    frames: &mut Vec<Vec<(String, T)>>,
    name: &String,
    value: &T,
    position: &Position,
    raw: &String,
) -> (res: Result<(), ZyxtError>)
    requires
        frames_unique(frames_view(old(frames)@)),
    ensures
        frames_unique(frames_view(final(frames)@)),
        match env_get(frames_view(old(frames)@), name@) {
            Some(_) => {
                &&& res is Ok
                &&& (env_get(frames_view(final(frames)@), name@) matches Some(v) && cloned(*value, v)
                    && assigned(frames_view(old(frames)@), frames_view(final(frames)@), name@, v)
                    && set_innermost(frames_view(old(frames)@), frames_view(final(frames)@), *name, v))
            },
            None => {
                &&& final(frames)@ == old(frames)@
                &&& (res matches Err(e) && e.code@ == "3.0"@ && e.message@ == "Undefined variable `"@
                    + name@ + "`"@ && e.position == Some(*position) && e.raw == *raw)
            },
        },
{
    let ghost fv = frames_view(frames@);
    proof {
        lemma_env_find(fv, name@);
        assert(fv.subrange(0, fv.len() as int) =~= fv);
    }
    let mut i: usize = frames.len();
    while i > 0
        invariant
            0 <= i <= frames@.len(),
            frames@ == old(frames)@,
            frames_unique(fv),
            fv == frames_view(frames@),
            env_find(fv, name@) == env_find(fv.subrange(0, i as int), name@),
        decreases i,
    {
        let ghost sub = fv.subrange(0, i as int);
        match frame_index(&frames[i - 1], name) {
            Some(j) => {
                let mut frame: Vec<(String, T)> = Vec::new();
    std::mem::swap(&mut frame, &mut frames[i - 1]);
                let ghost before_frame = frame@;
                proof {
                    assert(before_frame == fv[i - 1]);
                    assert(frame_unique(fv[i - 1]));
                    lemma_frame_find(before_frame, name@);
                    lemma_env_find(fv, name@);
                }
                frame.set(j, (name.clone(), value.clone()));
                proof {
                    lemma_frame_update(before_frame, j as int, frame@[j as int]);
                    assert(frame@ =~= before_frame.update(j as int, frame@[j as int]));
                    assert forall|a: int, b: int| 0 <= a < b < frame@.len() implies frame@[a].0@ != frame@[b].0@ by {
                        assert(frame@[a].0@ == before_frame[a].0@);
                        assert(frame@[b].0@ == before_frame[b].0@);
                    }
                }
                frames.set(i - 1, frame);
                proof {
                    let after = frames_view(frames@);
                    assert(after =~= fv.update(i - 1, frame@));
                    lemma_env_update(fv, i - 1, frame@, name@, frame@[j as int].1);
                    assert(frames_unique(after)) by {
                        assert forall|x: int| 0 <= x < after.len() implies frame_unique(#[trigger] after[x]) by {
                            if x != i - 1 {
                                assert(after[x] == fv[x]);
                            }
                        }
                    }
                }
                return Ok(());
            },
            None => {
                proof {
                    lemma_frame_find(frames@[i - 1]@, name@);
                    assert(sub.last() == frames@[i - 1]@);
                    assert(sub.drop_last() =~= fv.subrange(0, i - 1));
                }
            },
        }
        i = i - 1;
    }
    proof {
        lemma_env_find(fv, name@);
    }
    Err(error_3_0(name.clone()).with_pos_and_raw(position, raw))
}

/// Removes a name from the last frame and gives back its value, or error 3.0
/// (undefined variable) at the given place if that frame does not bind it.
pub fn frames_delete<T>(
    frames: &mut Vec<Vec<(String, T)>>,
    name: &String,
    position: &Position,
    raw: &String,
) -> (res: Result<T, ZyxtError>)
    requires
        old(frames)@.len() > 0,
        frames_unique(frames_view(old(frames)@)),
    ensures
        frames_unique(frames_view(final(frames)@)),
        final(frames)@.len() == old(frames)@.len(),
        frames_view(final(frames)@).drop_last() == frames_view(old(frames)@).drop_last(),
        match frame_get(frames_view(old(frames)@).last(), name@) {
            Some(v) => res == Ok::<T, ZyxtError>(v) && frame_get(
                frames_view(final(frames)@).last(),
                name@,
            ) is None && forall|k: Seq<char>| k != name@ ==> #[trigger] frame_get(
                frames_view(final(frames)@).last(),
                k,
            ) == frame_get(frames_view(old(frames)@).last(), k),
            None => {
                &&& final(frames)@ == old(frames)@
                &&& (res matches Err(e) && e.code@ == "3.0"@ && e.message@ == "Undefined variable `"@
                    + name@ + "`"@ && e.position == Some(*position) && e.raw == *raw)
            },
        },
{
    let last = frames.len() - 1;
    proof {
        lemma_frame_find(frames@[last as int]@, name@);
        assert(frames_view(frames@)[last as int] == frames@[last as int]@);
    }
    match frame_index(&frames[last], name) {
        Some(i) => {
            let mut frame: Vec<(String, T)> = Vec::new();
    std::mem::swap(&mut frame, &mut frames[last]);
            let ghost before_frame = frame@;
            proof {
                assert(frame_unique(frames_view(old(frames)@)[last as int]));
            }
            let (_, v) = frame.remove(i);
            proof {
                lemma_frame_remove(before_frame, i as int);
                assert(frame@ =~= before_frame.remove(i as int));
            }
            frames.set(last, frame);
            proof {
                let a = frames_view(frames@);
                let b = frames_view(old(frames)@);
                assert(a.drop_last() =~= b.drop_last());
                assert forall|x: int| 0 <= x < a.len() implies frame_unique(#[trigger] a[x]) by {
                    if x < a.len() - 1 {
                        assert(a[x] == b[x]);
                    }
                }
            }
            Ok(v)
        },
        None => Err(error_3_0(name.clone()).with_pos_and_raw(position, raw)),
    }
}

} // verus!
