//! The scope chain: a stack of frames, the first being the global scope and
//! the last the innermost one. Each frame maps names to values; lookup and
//! assignment search from the innermost frame outward, and assignment never
//! creates a binding.

use crate::loxresult::{LoxResult, SigM};
use crate::token::Token;
use crate::value::{ValM, Value};
use vstd::prelude::*;

verus! {

/// The model of one frame: a map from names to values. Within a frame a
/// later binding for the same name replaces the earlier one.
pub open spec fn frame_view(entries: Seq<(String, Value)>) -> Map<Seq<char>, ValM>
    decreases entries.len(),
{
    if entries.len() == 0 {
        Map::empty()
    } else {
        frame_view(entries.drop_last()).insert(entries.last().0@, entries.last().1@)
    }
}

/// The model of a whole environment: the frame maps, outermost first.
pub open spec fn env_view(frames: Seq<Seq<(String, Value)>>) -> Seq<Map<Seq<char>, ValM>> {
    frames.map_values(|f: Seq<(String, Value)>| frame_view(f))
}

/// Lookup through the chain: the innermost frame that binds the name wins;
/// `None` when no frame binds it.
pub open spec fn env_lookup(env: Seq<Map<Seq<char>, ValM>>, name: Seq<char>) -> Option<ValM>
    decreases env.len(),
{
    if env.len() == 0 {
        None
    } else if env.last().contains_key(name) {
        Some(env.last()[name])
    } else {
        env_lookup(env.drop_last(), name)
    }
}

/// Assignment through the chain: the innermost frame that already binds the
/// name is updated; `None` when no frame binds it (assignment never creates
/// a binding).
pub open spec fn env_assign(
    env: Seq<Map<Seq<char>, ValM>>,
    name: Seq<char>,
    v: ValM,
) -> Option<Seq<Map<Seq<char>, ValM>>>
    decreases env.len(),
{
    if env.len() == 0 {
        None
    } else if env.last().contains_key(name) {
        Some(env.drop_last().push(env.last().insert(name, v)))
    } else {
        match env_assign(env.drop_last(), name, v) {
            Some(outer) => Some(outer.push(env.last())),
            None => None,
        }
    }
}

/// Definition: inserts or overwrites the name in the innermost frame alone.
pub open spec fn env_define(
    env: Seq<Map<Seq<char>, ValM>>,
    name: Seq<char>,
    v: ValM,
) -> Seq<Map<Seq<char>, ValM>> {
    env.drop_last().push(env.last().insert(name, v))
}

/// A chain of lexical scopes. There is always at least one frame: the
/// global scope.
pub struct Environment {
    frames: Vec<Vec<(String, Value)>>,
}

impl View for Environment {
    type V = Seq<Map<Seq<char>, ValM>>;

    closed spec fn view(&self) -> Seq<Map<Seq<char>, ValM>> {
        env_view(self.frames@.map_values(|f: Vec<(String, Value)>| f@))
    }
}

/// The message of the error that an unresolved name produces:
/// `Undefined variable 'NAME'.`
pub open spec fn undefined_variable_msg(name: Seq<char>) -> Seq<char> {
    "Undefined variable '"@ + name + "'."@
}

fn undefined_variable_error(name: &Token) -> (r: LoxResult)
    ensures
        r@ == (SigM::RtErr { token: name@, msg: undefined_variable_msg(name.lexeme@) }),
{
    let mut m = "Undefined variable '".to_owned();
    m.append(name.lexeme.as_str());
    m.append("'.");
    proof {
        assert(m@ =~= undefined_variable_msg(name.lexeme@));
    }
    LoxResult::runtime_error(name.clone(), m)
}

/// Pushing a binding onto a frame inserts it into the frame's model.
proof fn lemma_frame_push(f: Seq<(String, Value)>, name: String, value: Value)
    ensures
        frame_view(f.push((name, value))) =~= frame_view(f).insert(name@, value@),
{
    assert(f.push((name, value)).drop_last() =~= f);
    assert(f.push((name, value)).last() == (name, value));
}

/// Finds the value bound to `name` in one frame, scanning newest bindings
/// first.
fn frame_get(entries: &Vec<(String, Value)>, name: &String) -> (r: Option<Value>)
    ensures
        match r {
            Some(v) => frame_view(entries@).contains_key(name@) && v@ == frame_view(
                entries@,
            )[name@],
            None => !frame_view(entries@).contains_key(name@),
        },
{
    let mut i = entries.len();
    proof {
        assert(entries@.take(entries@.len() as int) =~= entries@);
    }
    while i > 0
        invariant
            i <= entries@.len(),
            !frame_view(entries@.take(i as int)).contains_key(name@) ==> !frame_view(
                entries@,
            ).contains_key(name@),
            frame_view(entries@.take(i as int)).contains_key(name@) ==> frame_view(
                entries@,
            ).contains_key(name@) && frame_view(entries@.take(i as int))[name@] == frame_view(
                entries@,
            )[name@],
        decreases i,
    {
        i = i - 1;
        proof {
            assert(entries@.take(i + 1).drop_last() =~= entries@.take(i as int));
            assert(entries@.take(i + 1).last() == entries@[i as int]);
        }
        if entries[i].0 == *name {
            return Some(entries[i].1.clone());
        }
    }
    proof {
        assert(entries@.take(0) =~= Seq::<(String, Value)>::empty());
    }
    None
}

impl Environment {
    /// A fresh environment: one empty global frame.
    pub fn new() -> (e: Environment)
        ensures
            e@ =~= seq![Map::<Seq<char>, ValM>::empty()],
    {
        let mut frames: Vec<Vec<(String, Value)>> = Vec::new();
        frames.push(Vec::new());
        Environment { frames }
    }

    /// How many frames the chain holds.
    pub fn depth(&self) -> (n: usize)
        ensures
            n == self@.len(),
    {
        self.frames.len()
    }

    /// A new innermost scope enclosing the given environment.
    pub fn new_enclosing(enclosing: Environment) -> (e: Environment)
        ensures
            e@ =~= enclosing@.push(Map::<Seq<char>, ValM>::empty()),
    {
        let mut e = enclosing;
        e.push_frame();
        e
    }

    /// Opens a new innermost scope.
    pub fn push_frame(&mut self)
        ensures
            final(self)@ =~= old(self)@.push(Map::<Seq<char>, ValM>::empty()),
    {
        self.frames.push(Vec::new());
    }

    /// Discards the innermost scope; the global frame is never discarded.
    pub fn pop_frame(&mut self)
        requires
            old(self)@.len() > 1,
        ensures
            final(self)@ =~= old(self)@.drop_last(),
    {
        let _ = self.frames.pop();
    }

    /// The chain enclosing the innermost scope, or `None` at the global
    /// scope. The environment itself is unchanged.
    pub fn get_enclosing_env(&mut self) -> (r: Option<Box<Environment>>)
        ensures
            *final(self) == *old(self),
            old(self)@.len() > 1 ==> match r {
                Some(e) => e@ =~= old(self)@.drop_last(),
                None => false,
            },
            old(self)@.len() <= 1 ==> r is None,
    {
        if self.frames.len() <= 1 {
            return None;
        }
        let mut copy: Vec<Vec<(String, Value)>> = Vec::new();
        let n = self.frames.len() - 1;
        let mut i: usize = 0;
        while i < n
            invariant
                n == self.frames@.len() - 1,
                i <= n,
                *self == *old(self),
                copy@.len() == i,
                forall|j: int|
                    0 <= j < i ==> frame_view(copy@[j]@) == frame_view(self.frames@[j]@),
            decreases n - i,
        {
            copy.push(clone_frame(&self.frames[i]));
            i = i + 1;
        }
        let e = Environment { frames: copy };
        proof {
            assert(e@ =~= old(self)@.drop_last());
        }
        Some(Box::new(e))
    }

    /// Binds the name in the innermost frame alone, inserting or
    /// overwriting; always succeeds.
    pub fn define(&mut self, name: String, value: Value)
        requires
            old(self)@.len() >= 1,
        ensures
            final(self)@ =~= env_define(old(self)@, name@, value@),
    {
        proof {
            assert(self.frames@.len() >= 1);
        }
        let last = self.frames.len() - 1;
        let mut fr = self.frames.remove(last);
        fr.push((name, value));
        self.frames.push(fr);
        proof {
            let ghost old_frames = old(self).frames@.map_values(|f: Vec<(String, Value)>| f@);
            assert(self.frames@.map_values(|f: Vec<(String, Value)>| f@) =~= old_frames.drop_last()
                .push(old_frames.last().push((name, value))));
            lemma_frame_push(old_frames.last(), name, value);
            assert(final(self)@ =~= env_define(old(self)@, name@, value@));
        }
    }

    /// Looks the name up through the chain, innermost frame first; an
    /// unresolved name is the `Undefined variable` runtime error at the
    /// name's token.
    pub fn get(&self, name: Token) -> (r: Result<Value, LoxResult>)
        ensures
            match r {
                Ok(v) => env_lookup(self@, name.lexeme@) == Some(v@),
                Err(e) => env_lookup(self@, name.lexeme@) is None && e@ == (SigM::RtErr {
                    token: name@,
                    msg: undefined_variable_msg(name.lexeme@),
                }),
            },
    {
        let n = self.frames.len();
        let mut i = n;
        proof {
            assert(self@.take(n as int) =~= self@);
        }
        while i > 0
            invariant
                i <= n,
                n == self.frames@.len(),
                env_lookup(self@.take(i as int), name.lexeme@) == env_lookup(self@, name.lexeme@),
            decreases i,
        {
            i = i - 1;
            proof {
                assert(self@.take(i + 1).drop_last() =~= self@.take(i as int));
                assert(self@.take(i + 1).last() == frame_view(self.frames@[i as int]@));
            }
            match frame_get(&self.frames[i], &name.lexeme) {
                Some(v) => {
                    return Ok(v);
                },
                None => {},
            }
        }
        proof {
            assert(self@.take(0) =~= Seq::<Map<Seq<char>, ValM>>::empty());
        }
        Err(undefined_variable_error(&name))
    }

    /// Writes through the chain to the innermost frame that already binds
    /// the name; an unresolved name is the `Undefined variable` runtime
    /// error, and assignment never creates a binding.
    pub fn assign(&mut self, name: Token, value: Value) -> (r: Result<(), LoxResult>)
        ensures
            match r {
                Ok(()) => env_assign(old(self)@, name.lexeme@, value@) == Some(final(self)@),
                Err(e) => {
                    &&& env_assign(old(self)@, name.lexeme@, value@) is None
                    &&& *final(self) == *old(self)
                    &&& e@ == (SigM::RtErr {
                        token: name@,
                        msg: undefined_variable_msg(name.lexeme@),
                    })
                },
            },
    {
        let n = self.frames.len();
        let mut i = n;
        while i > 0
            invariant
                i <= n,
                n == self.frames@.len(),
                *self == *old(self),
                forall|j: int| i <= j < n ==> !(#[trigger] self@[j]).contains_key(name.lexeme@),
            decreases i,
        {
            i = i - 1;
            let found = frame_contains(&self.frames[i], &name.lexeme);
            if found {
                proof {
                    lemma_env_assign_at(self@, i as int, name.lexeme@, value@);
                }
                let mut fr = self.frames.remove(i);
                fr.push((name.lexeme, value));
                self.frames.insert(i, fr);
                proof {
                    let ghost nm = name.lexeme@;
                    let ghost oldenv = old(self)@;
                    lemma_frame_push(old(self).frames@[i as int]@, name.lexeme, value);
                    assert(final(self)@ =~= oldenv.update(i as int, oldenv[i as int].insert(nm, value@)));
                }
                return Ok(());
            }
        }
        proof {
            lemma_env_assign_none(self@, name.lexeme@, value@);
        }
        Err(undefined_variable_error(&name))
    }
}

/// When the innermost frame that binds the name is frame `i`, assignment
/// updates exactly that frame.
proof fn lemma_env_assign_at(env: Seq<Map<Seq<char>, ValM>>, i: int, nm: Seq<char>, v: ValM)
    requires
        0 <= i < env.len(),
        env[i].contains_key(nm),
        forall|j: int| i < j < env.len() ==> !(#[trigger] env[j]).contains_key(nm),
    ensures
        env_assign(env, nm, v) == Some(env.update(i, env[i].insert(nm, v))),
    decreases env.len(),
{
    if i == env.len() - 1 {
        assert(env.drop_last().push(env.last().insert(nm, v)) =~= env.update(
            i,
            env[i].insert(nm, v),
        ));
    } else {
        lemma_env_assign_at(env.drop_last(), i, nm, v);
        assert(!env.last().contains_key(nm));
        assert(env.drop_last().update(i, env[i].insert(nm, v)).push(env.last()) =~= env.update(
            i,
            env[i].insert(nm, v),
        ));
    }
}

/// When no frame binds the name, assignment fails.
proof fn lemma_env_assign_none(env: Seq<Map<Seq<char>, ValM>>, nm: Seq<char>, v: ValM)
    requires
        forall|j: int| 0 <= j < env.len() ==> !(#[trigger] env[j]).contains_key(nm),
    ensures
        env_assign(env, nm, v) is None,
    decreases env.len(),
{
    if env.len() > 0 {
        lemma_env_assign_none(env.drop_last(), nm, v);
    }
}

/// Whether one frame binds the name.
fn frame_contains(entries: &Vec<(String, Value)>, name: &String) -> (r: bool)
    ensures
        r == frame_view(entries@).contains_key(name@),
{
    match frame_get(entries, name) {
        Some(_) => true,
        None => false,
    }
}

/// An entrywise copy of one frame, preserving its model.
fn clone_frame(entries: &Vec<(String, Value)>) -> (r: Vec<(String, Value)>)
    ensures
        frame_view(r@) == frame_view(entries@),
        r@.len() == entries@.len(),
{
    let mut r: Vec<(String, Value)> = Vec::new();
    let mut i: usize = 0;
    while i < entries.len()
        invariant
            i <= entries@.len(),
            r@.len() == i,
            forall|j: int| 0 <= j < i ==> r@[j].0@ == entries@[j].0@ && r@[j].1@ == entries@[j].1@,
        decreases entries@.len() - i,
    {
        let (k, v) = &entries[i];
        r.push((k.clone(), v.clone()));
        i = i + 1;
    }
    proof {
        lemma_frame_view_congruent(r@, entries@);
    }
    r
}

/// Two frames whose entries agree name-for-name and model-for-model have
/// the same model.
proof fn lemma_frame_view_congruent(a: Seq<(String, Value)>, b: Seq<(String, Value)>)
    requires
        a.len() == b.len(),
        forall|j: int| 0 <= j < a.len() ==> a[j].0@ == b[j].0@ && a[j].1@ == b[j].1@,
    ensures
        frame_view(a) == frame_view(b),
    decreases a.len(),
{
    if a.len() > 0 {
        lemma_frame_view_congruent(a.drop_last(), b.drop_last());
        assert(frame_view(a) =~= frame_view(b));
    } else {
        assert(frame_view(a) =~= frame_view(b));
    }
}

} // verus!
