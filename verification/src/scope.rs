use vstd::prelude::*;

use crate::value::{clone_chars, HostFn, Value, Variable, VariableView};

verus! {

broadcast use vstd::std_specs::vec::axiom_vec_index_decreases;

/// One level of the scope: an insertion-ordered run of bindings, a later
/// entry for a name standing for the earlier ones.
pub struct Frame {
    pub entries: Vec<(Vec<char>, Variable)>,
}

/// The bindings a frame holds, as a map from name to binding.
pub open spec fn frame_map(entries: Seq<(Vec<char>, Variable)>) -> Map<Seq<char>, VariableView>
    decreases entries,
{
    if entries.len() == 0 {
        Map::empty()
    } else {
        frame_map(entries.drop_last()).insert(entries.last().0@, entries.last().1@)
    }
}

impl View for Frame {
    type V = Map<Seq<char>, VariableView>;

    open spec fn view(&self) -> Map<Seq<char>, VariableView> {
        frame_map(self.entries@)
    }
}

/// The scope: a stack of frames, the first entered for the whole program,
/// a name resolving to the innermost frame that holds it.
pub struct Scope {
    pub frames: Vec<Frame>,
}

pub open spec fn frames_view(frames: Seq<Frame>) -> Seq<Map<Seq<char>, VariableView>> {
    Seq::new(frames.len(), |i: int| frames[i]@)
}

impl View for Scope {
    type V = Seq<Map<Seq<char>, VariableView>>;

    open spec fn view(&self) -> Seq<Map<Seq<char>, VariableView>> {
        frames_view(self.frames@)
    }
}

/// The binding a name resolves to: the innermost frame that holds it.
pub open spec fn scope_lookup(sc: Seq<Map<Seq<char>, VariableView>>, name: Seq<char>) -> Option<
    VariableView,
>
    decreases sc,
{
    if sc.len() == 0 {
        None
    } else if sc.last().contains_key(name) {
        Some(sc.last()[name])
    } else {
        scope_lookup(sc.drop_last(), name)
    }
}

/// The scope with the name bound in the innermost frame.
pub open spec fn scope_insert(
    sc: Seq<Map<Seq<char>, VariableView>>,
    name: Seq<char>,
    var: VariableView,
) -> Seq<Map<Seq<char>, VariableView>> {
    if sc.len() == 0 {
        sc
    } else {
        sc.update(sc.len() - 1, sc.last().insert(name, var))
    }
}

/// The scope with its innermost frame left, the outermost always staying.
pub open spec fn pop_frame(sc: Seq<Map<Seq<char>, VariableView>>) -> Seq<
    Map<Seq<char>, VariableView>,
> {
    if sc.len() > 1 {
        sc.drop_last()
    } else {
        sc
    }
}

/// The scope with the innermost binding of the name overwritten in the
/// frame it resides in.
pub open spec fn scope_assign(
    sc: Seq<Map<Seq<char>, VariableView>>,
    name: Seq<char>,
    var: VariableView,
) -> Seq<Map<Seq<char>, VariableView>>
    decreases sc,
{
    if sc.len() == 0 {
        sc
    } else if sc.last().contains_key(name) {
        sc.update(sc.len() - 1, sc.last().insert(name, var))
    } else {
        scope_assign(sc.drop_last(), name, var).push(sc.last())
    }
}

/// Looks a name up in one frame: the latest entry for it wins.
fn frame_get<'a>(f: &'a Frame, name: &Vec<char>) -> (r: Option<&'a Variable>)
    ensures
        match r {
            Some(v) => f@.contains_key(name@) && f@[name@] == v@,
            None => !f@.contains_key(name@),
        },
{
    let ghost entries = f.entries@;
    let mut j: usize = f.entries.len();
    proof {
        assert(entries.take(entries.len() as int) =~= entries);
    }
    while j > 0
        invariant
            j <= entries.len(),
            f.entries@ == entries,
            frame_map(entries).contains_key(name@) == frame_map(entries.take(j as int)).contains_key(
                name@,
            ),
            frame_map(entries).contains_key(name@) ==> frame_map(entries)[name@] == frame_map(
                entries.take(j as int),
            )[name@],
        decreases j,
    {
        j = j - 1;
        proof {
            assert(entries.take(j + 1).drop_last() =~= entries.take(j as int));
            assert(entries.take(j + 1).last() == entries[j as int]);
        }
        if crate::ast::eq_chars(&f.entries[j].0, name) {
            return Some(&f.entries[j].1);
        }
    }
    proof {
        assert(entries.take(0) =~= Seq::<(Vec<char>, Variable)>::empty());
    }
    None
}

impl Scope {
    /// An empty scope: one outermost frame holding nothing.
    pub fn new() -> (r: Scope)
        ensures
            r@ =~= seq![Map::<Seq<char>, VariableView>::empty()],
    {
        let mut frames: Vec<Frame> = Vec::new();
        frames.push(Frame { entries: Vec::new() });
        let r = Scope { frames };
        proof {
            assert(r.frames@[0].entries@ =~= Seq::<(Vec<char>, Variable)>::empty());
            assert(r@ =~= seq![Map::<Seq<char>, VariableView>::empty()]);
        }
        r
    }

    /// Enters a fresh innermost frame.
    pub fn push_scope(&mut self)
        ensures
            final(self)@ =~= old(self)@.push(Map::empty()),
    {
        self.frames.push(Frame { entries: Vec::new() });
        proof {
            assert(self.frames@.last().entries@ =~= Seq::<(Vec<char>, Variable)>::empty());
            assert(self@ =~= old(self)@.push(Map::empty()));
        }
    }

    /// Leaves the innermost frame; the outermost one always stays.
    pub fn pop_scope(&mut self)
        ensures
            final(self)@ =~= pop_frame(old(self)@),
    {
        if self.frames.len() > 1 {
            self.frames.pop();
            proof {
                assert(self@ =~= old(self)@.drop_last());
            }
        }
    }

    /// The binding a name resolves to, innermost first.
    pub fn get<'a>(&'a self, name: &Vec<char>) -> (r: Option<&'a Variable>)
        ensures
            match r {
                Some(v) => scope_lookup(self@, name@) == Some(v@),
                None => scope_lookup(self@, name@) is None,
            },
    {
        let ghost sc = self@;
        let mut j: usize = self.frames.len();
        proof {
            assert(sc.take(sc.len() as int) =~= sc);
        }
        while j > 0
            invariant
                j <= sc.len(),
                self@ == sc,
                scope_lookup(sc, name@) == scope_lookup(sc.take(j as int), name@),
            decreases j,
        {
            j = j - 1;
            proof {
                assert(sc.take(j + 1).drop_last() =~= sc.take(j as int));
                assert(sc.take(j + 1).last() == sc[j as int]);
            }
            match frame_get(&self.frames[j], name) {
                Some(v) => {
                    return Some(v);
                },
                None => {
                },
            }
        }
        proof {
            assert(sc.take(0) =~= Seq::<Map<Seq<char>, VariableView>>::empty());
        }
        None
    }

    /// Binds the name in the innermost frame, shadowing any outer binding.
    pub fn insert(&mut self, name: Vec<char>, var: Variable)
        ensures
            final(self)@ =~= scope_insert(old(self)@, name@, var@),
    {
        if self.frames.len() == 0 {
            return;
        }
        let last = self.frames.len() - 1;
        let ghost old_entries = self.frames@[last as int].entries@;
        let f = &mut self.frames[last];
        f.entries.push((name, var));
        proof {
            assert(self.frames@[last as int].entries@.drop_last() =~= old_entries);
            assert(self@ =~= scope_insert(old(self)@, name@, var@));
        }
    }

    /// Overwrites the innermost binding of a name, in the frame it
    /// resides in; a name bound nowhere leaves the scope unchanged.
    pub fn insert_existing(&mut self, name: Vec<char>, var: Variable)
        ensures
            final(self)@ =~= scope_assign(old(self)@, name@, var@),
    {
        let ghost sc = old(self)@;
        let mut j: usize = self.frames.len();
        proof {
            assert(sc.skip(sc.len() as int) =~= Seq::<Map<Seq<char>, VariableView>>::empty());
            assert(sc.take(sc.len() as int) =~= sc);
            assert(scope_assign(sc, name@, var@) + sc.skip(sc.len() as int) =~= scope_assign(
                sc,
                name@,
                var@,
            ));
        }
        while j > 0
            invariant
                j <= sc.len(),
                self@ == sc,
                self.frames@.len() == sc.len(),
                scope_assign(sc, name@, var@) =~= scope_assign(sc.take(j as int), name@, var@)
                    + sc.skip(j as int),
            decreases j,
        {
            j = j - 1;
            proof {
                assert(sc.take(j + 1).drop_last() =~= sc.take(j as int));
                assert(sc.take(j + 1).last() == sc[j as int]);
            }
            let found = match frame_get(&self.frames[j], &name) {
                Some(_) => true,
                None => false,
            };
            if found {
                let ghost old_entries = self.frames@[j as int].entries@;
                let nm = clone_chars(&name);
                let f = &mut self.frames[j];
                f.entries.push((nm, var));
                proof {
                    assert(self.frames@[j as int].entries@.drop_last() =~= old_entries);
                    assert(scope_assign(sc.take(j + 1), name@, var@) =~= sc.take(j + 1).update(
                        j as int,
                        sc[j as int].insert(name@, var@),
                    ));
                    assert(self@ =~= scope_assign(sc.take(j + 1), name@, var@) + sc.skip(j + 1));
                    assert(self@ =~= scope_assign(sc, name@, var@));
                }
                return;
            }
            proof {
                assert(scope_assign(sc.take(j + 1), name@, var@) =~= scope_assign(
                    sc.take(j as int),
                    name@,
                    var@,
                ).push(sc[j as int]));
                assert(scope_assign(sc.take(j as int), name@, var@) + sc.skip(j as int)
                    =~= scope_assign(sc.take(j + 1), name@, var@) + sc.skip(j + 1));
            }
        }
        proof {
            assert(sc.take(0) =~= Seq::<Map<Seq<char>, VariableView>>::empty());
            assert(scope_assign(Seq::empty(), name@, var@) + sc.skip(0) =~= sc);
            assert(self@ =~= scope_assign(sc, name@, var@));
        }
    }
}

/// One pre-bound builtin of the default scope.
pub open spec fn builtin_var(arity: nat, f: HostFn) -> VariableView {
    VariableView {
        value: crate::value::ValueView::RustFunction {
            parameter_count: arity as usize,
            function: f,
        },
        constant: true,
    }
}

/// The map of bindings the default scope starts with.
pub open spec fn default_frame() -> Map<Seq<char>, VariableView> {
    Map::empty().insert("println"@, builtin_var(1, HostFn::Println)).insert(
        "print"@,
        builtin_var(1, HostFn::Print),
    ).insert("exit"@, builtin_var(1, HostFn::Exit)).insert(
        "readln"@,
        builtin_var(0, HostFn::Readln),
    ).insert("assert"@, builtin_var(1, HostFn::Assert)).insert(
        "parse"@,
        builtin_var(1, HostFn::Parse),
    ).insert("type"@, builtin_var(1, HostFn::Type)).insert("len"@, builtin_var(1, HostFn::Len)).insert(
        "filter"@,
        builtin_var(2, HostFn::Filter),
    ).insert("concat"@, builtin_var(2, HostFn::Concat))
}

fn insert_builtin(sc: &mut Scope, name: &str, arity: usize, f: HostFn)
    requires
        old(sc)@.len() > 0,
    ensures
        final(sc)@ =~= scope_insert(old(sc)@, name@, builtin_var(arity as nat, f)),
{
    let nm = crate::value::str_to_chars(name);
    sc.insert(nm, Variable { value: Value::RustFunction { parameter_count: arity, function: f }, constant: true });
}

/// The scope every run starts from: each builtin bound as a constant in
/// the outermost frame.
pub fn default() -> (r: Scope)
    ensures
        r@ =~= seq![default_frame()],
{
    let mut sc = Scope::new();
    insert_builtin(&mut sc, "println", 1, HostFn::Println);
    insert_builtin(&mut sc, "print", 1, HostFn::Print);
    insert_builtin(&mut sc, "exit", 1, HostFn::Exit);
    insert_builtin(&mut sc, "readln", 0, HostFn::Readln);
    insert_builtin(&mut sc, "assert", 1, HostFn::Assert);
    insert_builtin(&mut sc, "parse", 1, HostFn::Parse);
    insert_builtin(&mut sc, "type", 1, HostFn::Type);
    insert_builtin(&mut sc, "len", 1, HostFn::Len);
    insert_builtin(&mut sc, "filter", 2, HostFn::Filter);
    insert_builtin(&mut sc, "concat", 2, HostFn::Concat);
    proof {
        assert(sc@ =~= seq![default_frame()]);
    }
    sc
}

} // verus!
