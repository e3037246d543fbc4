use vstd::prelude::*;

use crate::script::ast::expr::{
    exprs_view, lemma_exprs_view_index, lemma_exprs_view_len, lemma_exprs_view_push, Expr, SExpr,
    SVariable, Variable,
};
use crate::script::ast::var_type::{VarDeclType, VarType};
use crate::script::vm::chunk::{StackIndex, StackOffset, UpvalueIndex};

verus! {

/// How a local's declaration is recorded: by the slot of `decl_types` that
/// holds its declaration kind, or, for the slot of a call, by the kind itself.
#[derive(Debug, Clone, Copy, PartialEq, Eq, Structural)]
pub enum LocalType {
    Local(usize),
    Call(VarDeclType),
}

/// A local variable in scope.
#[derive(Debug)]
pub struct Local {
    pub scope_depth: usize,
    /// The depth of the function that declared it, if any.
    pub function_depth: Option<usize>,
    pub name: String,
    pub type_: LocalType,
}

/// A value that a function captures from an enclosing one.
#[derive(Debug, Clone, Copy, PartialEq, Eq, Structural)]
pub struct Upvalue {
    pub index: UpvalueIndex,
}

/// A block scope and the locals declared in it, in order.
#[derive(Debug)]
pub struct Scope {
    pub depth: usize,
    pub locals: Vec<Local>,
}

/// A function being resolved, with the values it captures.
#[derive(Debug)]
pub struct Func {
    pub depth: usize,
    pub upvalues: Vec<Upvalue>,
}

/// The state of name resolution: the open scopes (innermost last), the open
/// functions (innermost last), the number of temporaries on the value stack,
/// and the kind of each recorded declaration.
#[derive(Debug)]
pub struct Resolver {
    pub scopes: Vec<Scope>,
    pub funcs: Vec<Func>,
    pub temporaries: usize,
    pub decl_types: Vec<VarDeclType>,
}

/// The locals of all scopes, outermost first, each scope's in order.
pub open spec fn flat_locals(scopes: Seq<Scope>) -> Seq<Local>
    decreases scopes.len(),
{
    if scopes.len() == 0 {
        Seq::empty()
    } else {
        flat_locals(scopes.drop_last()) + scopes.last().locals@
    }
}

/// The position of the last local of `ls` named `name`.
pub open spec fn find_last(ls: Seq<Local>, name: Seq<char>) -> Option<int>
    decreases ls.len(),
{
    if ls.len() == 0 {
        None
    } else if ls.last().name@ == name {
        Some(ls.len() - 1)
    } else {
        find_last(ls.drop_last(), name)
    }
}

pub proof fn lemma_find_last(ls: Seq<Local>, name: Seq<char>)
    ensures
        find_last(ls, name) matches Some(j) ==> 0 <= j < ls.len() && ls[j].name@ == name
            && forall|k: int| j < k < ls.len() ==> (#[trigger] ls[k]).name@ != name,
        find_last(ls, name) is None ==> forall|k: int|
            0 <= k < ls.len() ==> (#[trigger] ls[k]).name@ != name,
    decreases ls.len(),
{
    if ls.len() > 0 {
        let d = ls.drop_last();
        lemma_find_last(d, name);
        if ls.last().name@ == name {
            assert(find_last(ls, name) == Some(ls.len() - 1));
        } else {
            assert(find_last(ls, name) == find_last(d, name));
            match find_last(d, name) {
                Some(j) => {
                    assert(ls[j] == d[j]);
                    assert forall|k: int| j < k < ls.len() implies (#[trigger] ls[k]).name@ != name by {
                        if k < d.len() {
                            assert(d[k] == ls[k]);
                        } else {
                            assert(ls[k] == ls.last());
                        }
                    }
                },
                None => {
                    assert forall|k: int| 0 <= k < ls.len() implies (#[trigger] ls[k]).name@ != name by {
                        if k < d.len() {
                            assert(d[k] == ls[k]);
                        } else {
                            assert(ls[k] == ls.last());
                        }
                    }
                },
            }
        }
    }
}

/// Whether a variable read from a local at `local` resolves to a slot of the
/// current function's stack (and not to a captured value).
pub open spec fn reads_on_stack(funcs: Seq<Func>, local: Local) -> bool {
    funcs.len() == 0 || local.function_depth == Some(funcs.last().depth)
}

impl Resolver {
    /// A resolver at the top level: no scope, no function, no temporaries.
    pub fn new() -> (r: Resolver)
        ensures
            r.scopes@.len() == 0,
            r.funcs@.len() == 0,
            r.temporaries == 0,
            r.decl_types@.len() == 0,
    {
        Resolver { scopes: Vec::new(), funcs: Vec::new(), temporaries: 0, decl_types: Vec::new() }
    }

    /// Whether no scope is open.
    pub fn is_global_scope(&self) -> (r: bool)
        ensures
            r == (self.scopes@.len() == 0),
    {
        self.scopes.len() == 0
    }

    /// Opens a scope one level deeper than those open.
    pub fn begin_scope(&mut self)
        ensures
            final(self).scopes@.len() == old(self).scopes@.len() + 1,
            final(self).scopes@.drop_last() == old(self).scopes@,
            final(self).scopes@.last().depth == old(self).scopes@.len(),
            final(self).scopes@.last().locals@.len() == 0,
            final(self).funcs@ == old(self).funcs@,
            final(self).temporaries == old(self).temporaries,
            final(self).decl_types@ == old(self).decl_types@,
    {
        let depth = self.scopes.len();
        self.scopes.push(Scope { depth, locals: Vec::new() });
    }

    /// Closes the innermost scope and gives the number of locals declared in
    /// it. Some scope must be open.
    pub fn end_scope(&mut self) -> (r: usize)
        requires
            old(self).scopes@.len() > 0,
        ensures
            final(self).scopes@ == old(self).scopes@.drop_last(),
            r == old(self).scopes@.last().locals@.len(),
            final(self).funcs@ == old(self).funcs@,
            final(self).temporaries == old(self).temporaries,
            final(self).decl_types@ == old(self).decl_types@,
    {
        let scope = self.scopes.pop().unwrap();
        scope.locals.len()
    }

    /// Opens a function one level deeper than those open.
    pub fn begin_func(&mut self)
        ensures
            final(self).funcs@.len() == old(self).funcs@.len() + 1,
            final(self).funcs@.drop_last() == old(self).funcs@,
            final(self).funcs@.last().depth == old(self).funcs@.len(),
            final(self).funcs@.last().upvalues@.len() == 0,
            final(self).scopes@ == old(self).scopes@,
            final(self).temporaries == old(self).temporaries,
            final(self).decl_types@ == old(self).decl_types@,
    {
        let depth = self.funcs.len();
        self.funcs.push(Func { depth, upvalues: Vec::new() });
    }

    /// Closes the innermost function. Some function must be open.
    pub fn end_func(&mut self)
        requires
            old(self).funcs@.len() > 0,
        ensures
            final(self).funcs@ == old(self).funcs@.drop_last(),
            final(self).scopes@ == old(self).scopes@,
            final(self).temporaries == old(self).temporaries,
            final(self).decl_types@ == old(self).decl_types@,
    {
        self.funcs.pop();
    }

    /// Declares `name` in the innermost scope, owned by the innermost function.
    /// Some scope must be open.
    pub fn push_local(&mut self, name: String, type_: LocalType)
        requires
            old(self).scopes@.len() > 0,
        ensures
            final(self).scopes@.len() == old(self).scopes@.len(),
            final(self).scopes@.drop_last() == old(self).scopes@.drop_last(),
            final(self).scopes@.last().depth == old(self).scopes@.last().depth,
            final(self).scopes@.last().locals@ == old(self).scopes@.last().locals@.push(
                Local {
                    scope_depth: old(self).scopes@.last().depth,
                    function_depth: if old(self).funcs@.len() == 0 {
                        None
                    } else {
                        Some(old(self).funcs@.last().depth)
                    },
                    name,
                    type_,
                },
            ),
            final(self).funcs@ == old(self).funcs@,
            final(self).temporaries == old(self).temporaries,
            final(self).decl_types@ == old(self).decl_types@,
    {
        let function_depth = if self.funcs.len() == 0 {
            None
        } else {
            Some(self.funcs[self.funcs.len() - 1].depth)
        };
        let mut last = self.scopes.pop().unwrap();
        let scope_depth = last.depth;
        last.locals.push(Local { scope_depth, function_depth, name, type_ });
        self.scopes.push(last);
    }

    /// Records a new declaration of kind `kind` and gives its slot.
    pub fn record_decl(&mut self, kind: VarDeclType) -> (r: usize)
        ensures
            final(self).decl_types@ == old(self).decl_types@.push(kind),
            r == old(self).decl_types@.len(),
            final(self).scopes@ == old(self).scopes@,
            final(self).funcs@ == old(self).funcs@,
            final(self).temporaries == old(self).temporaries,
    {
        let slot = self.decl_types.len();
        self.decl_types.push(kind);
        slot
    }

    /// The number of stack slots in use: every local, and the slot of the
    /// script itself.
    pub fn local_count(&self) -> (r: usize)
        requires
            flat_locals(self.scopes@).len() + 1 <= usize::MAX,
        ensures
            r == flat_locals(self.scopes@).len() + 1,
    {
        let mut count: usize = 0;
        let mut k: usize = 0;
        while k < self.scopes.len()
            invariant
                k <= self.scopes@.len(),
                count == flat_locals(self.scopes@.take(k as int)).len(),
                flat_locals(self.scopes@).len() + 1 <= usize::MAX,
            decreases self.scopes@.len() - k,
        {
            proof {
                assert(self.scopes@.take(k as int + 1).drop_last() =~= self.scopes@.take(k as int));
                lemma_flat_locals_prefix(self.scopes@, k as int + 1);
            }
            count = count + self.scopes[k].locals.len();
            k = k + 1;
        }
        assert(self.scopes@.take(k as int) =~= self.scopes@);
        count + 1
    }

    /// The stack slot just above the locals.
    pub fn stack_index(&self) -> (r: StackIndex)
        requires
            flat_locals(self.scopes@).len() + 1 <= usize::MAX,
        ensures
            r == StackIndex((flat_locals(self.scopes@).len() + 1) as usize),
    {
        StackIndex(self.local_count())
    }
}

/// The local that a read of `name` refers to, as a position in the flattened
/// locals, when some scope is open.
pub open spec fn target(r: Resolver, name: Seq<char>) -> Option<int> {
    if r.scopes@.len() == 0 {
        None
    } else {
        find_last(flat_locals(r.scopes@), name)
    }
}

/// Whether a read of `name` makes the innermost function capture a local of
/// an enclosing one.
pub open spec fn captures(r: Resolver, name: Seq<char>) -> bool {
    target(r, name) matches Some(j) && !reads_on_stack(r.funcs@, flat_locals(r.scopes@)[j])
}

/// The slot of the declaration that a capture of `name` turns into an upvalue.
pub open spec fn captured_slot(r: Resolver, name: Seq<char>) -> int {
    flat_locals(r.scopes@)[target(r, name)->0].type_->Local_0 as int
}

/// Where a read of `name` is found: its stack offset counted from the top
/// (later locals and the temporaries above them lie nearer the top), or the
/// next upvalue of the innermost function; `prior` where no open scope
/// declares the name.
pub open spec fn resolved_type(r: Resolver, name: Seq<char>, prior: VarType) -> VarType {
    match target(r, name) {
        None => prior,
        Some(j) => {
            let ls = flat_locals(r.scopes@);
            if reads_on_stack(r.funcs@, ls[j]) {
                VarType::Local(StackOffset((ls.len() - 1 - j + r.temporaries) as usize))
            } else {
                VarType::Upvalue(UpvalueIndex(r.funcs@.last().upvalues@.len() as usize))
            }
        },
    }
}

/// Whether resolving a read of `name` stays within the machine's integers and
/// meets a declared local: it may not be a local declared outside every
/// function that a function reads, nor a call slot that a function captures.
pub open spec fn resolvable(r: Resolver, name: Seq<char>) -> bool {
    &&& r.temporaries < usize::MAX
    &&& flat_locals(r.scopes@).len() <= usize::MAX
    &&& match target(r, name) {
        None => true,
        Some(j) => {
            let ls = flat_locals(r.scopes@);
            let local = ls[j];
            if r.funcs@.len() == 0 {
                ls.len() - 1 - j + r.temporaries <= usize::MAX
            } else if local.function_depth is None {
                false
            } else if reads_on_stack(r.funcs@, local) {
                ls.len() - 1 - j + r.temporaries <= usize::MAX
            } else {
                local.type_ matches LocalType::Local(slot) && slot < r.decl_types@.len()
            }
        },
    }
}

impl Resolver {
    /// The last declared local named `name`: its distance from the last local,
    /// the function that declared it, and how its declaration is recorded.
    fn find_local(&self, name: &String) -> (r: Option<(usize, Option<usize>, LocalType)>)
        requires
            flat_locals(self.scopes@).len() <= usize::MAX,
        ensures
            match find_last(flat_locals(self.scopes@), name@) {
                None => r is None,
                Some(j) => r == Some(
                    (
                        (flat_locals(self.scopes@).len() - 1 - j) as usize,
                        flat_locals(self.scopes@)[j].function_depth,
                        flat_locals(self.scopes@)[j].type_,
                    ),
                ),
            },
    {
        let ghost fl = flat_locals(self.scopes@);
        let mut i: usize = 0;
        let mut k: usize = self.scopes.len();
        assert(self.scopes@.take(k as int) =~= self.scopes@);
        while k > 0
            invariant
                k <= self.scopes@.len(),
                fl == flat_locals(self.scopes@),
                fl.len() <= usize::MAX,
                i + flat_locals(self.scopes@.take(k as int)).len() == fl.len(),
                forall|x: int|
                    flat_locals(self.scopes@.take(k as int)).len() <= x < fl.len() ==> (
                    #[trigger] fl[x]).name@ != name@,
            decreases k,
        {
            let ghost base = flat_locals(self.scopes@.take(k as int - 1));
            let scope = &self.scopes[k - 1];
            proof {
                lemma_flat_locals_prefix(self.scopes@, k as int);
                assert(self.scopes@.take(k as int).drop_last() =~= self.scopes@.take(k as int - 1));
                assert(flat_locals(self.scopes@.take(k as int)) == base + scope.locals@);
            }
            let mut m: usize = scope.locals.len();
            while m > 0
                invariant
                    m <= scope.locals@.len(),
                    fl == flat_locals(self.scopes@),
                    fl.len() <= usize::MAX,
                    i + base.len() + m == fl.len(),
                    base + scope.locals@ == fl.take((base.len() + scope.locals@.len()) as int),
                    base.len() + scope.locals@.len() <= fl.len(),
                    forall|x: int| base.len() + m <= x < fl.len() ==> (#[trigger] fl[x]).name@ != name@,
                decreases m,
            {
                let l = &scope.locals[m - 1];
                if l.name == *name {
                    proof {
                        let j = base.len() + m - 1;
                        assert((base + scope.locals@)[j] == scope.locals@[m - 1]);
                        assert(fl.take((base.len() + scope.locals@.len()) as int)[j] == fl[j]);
                        assert(fl[j] == scope.locals@[m - 1]);
                        assert(fl[j].name@ == name@);
                        lemma_find_last(fl, name@);
                        match find_last(fl, name@) {
                            Some(j2) => {
                                if j2 < j {
                                    assert(fl[j].name@ != name@);
                                } else if j2 > j {
                                    assert(fl[j2].name@ != name@);
                                }
                                assert(j2 == j);
                            },
                            None => {
                                assert(fl[j].name@ != name@);
                            },
                        }
                    }
                    return Some((i, l.function_depth, l.type_));
                }
                proof {
                    let j = base.len() + m - 1;
                    assert((base + scope.locals@)[j] == scope.locals@[m - 1]);
                    assert(fl.take((base.len() + scope.locals@.len()) as int)[j] == fl[j]);
                    assert(fl[j] == scope.locals@[m - 1]);
                }
                m = m - 1;
                i = i + 1;
            }
            k = k - 1;
        }
        proof {
            lemma_find_last(fl, name@);
            assert(self.scopes@.take(0) =~= Seq::<Scope>::empty());
        }
        None
    }

    /// Resolves a read of `var`: a name that no open scope declares keeps its
    /// kind (global); one declared in the current function, or anywhere when
    /// no function is open, is a stack slot; one declared in an enclosing
    /// function becomes the next upvalue of the innermost function, and its
    /// declaration is marked as captured. Counts one more temporary.
    pub fn resolve_var_expr(&mut self, var: &mut Variable)
        requires
            resolvable(*old(self), old(var).name.lexeme@),
        ensures
            final(self).temporaries == old(self).temporaries + 1,
            final(self).scopes@ == old(self).scopes@,
            final(var).name == old(var).name,
            final(var).var_type == resolved_type(*old(self), old(var).name.lexeme@, old(var).var_type),
            captures(*old(self), old(var).name.lexeme@) ==> {
                &&& final(self).funcs@.len() == old(self).funcs@.len()
                &&& final(self).funcs@.drop_last() == old(self).funcs@.drop_last()
                &&& final(self).funcs@.last().depth == old(self).funcs@.last().depth
                &&& final(self).funcs@.last().upvalues@ == old(self).funcs@.last().upvalues@.push(
                    Upvalue { index: UpvalueIndex(old(self).funcs@.last().upvalues@.len() as usize) },
                )
                &&& final(self).decl_types@ == old(self).decl_types@.update(
                    captured_slot(*old(self), old(var).name.lexeme@),
                    VarDeclType::Upvalue,
                )
            },
            !captures(*old(self), old(var).name.lexeme@) ==> final(self).funcs@ == old(self).funcs@
                && final(self).decl_types@ == old(self).decl_types@,
            var_step(
                flat_locals(old(self).scopes@),
                old(self).scopes@.len() == 0,
                rstate(*old(self)),
                old(var).name.lexeme@,
                old(var).var_type,
            ) == Some((rstate(*final(self)), final(var).var_type)),
    {
        let temps = self.temporaries;
        self.temporaries = temps + 1;
        if self.scopes.len() == 0 {
            return;
        }
        let found = self.find_local(&var.name.lexeme);
        proof {
            lemma_find_last(flat_locals(self.scopes@), var.name.lexeme@);
        }
        let (i, function_depth, type_) = match found {
            None => {
                return;
            },
            Some(f) => f,
        };
        let on_stack = if self.funcs.len() == 0 {
            true
        } else {
            match function_depth {
                Some(d) => d == self.funcs[self.funcs.len() - 1].depth,
                None => false,
            }
        };
        if on_stack {
            var.var_type = VarType::Local(StackOffset(i + temps));
            return;
        }
        let ghost old_funcs = self.funcs@;
        let mut func = self.funcs.pop().unwrap();
        let index = UpvalueIndex(func.upvalues.len());
        func.upvalues.push(Upvalue { index });
        self.funcs.push(func);
        proof {
            let last = old_funcs.len() - 1;
            assert(func_views(self.funcs@) =~= func_views(old_funcs).update(
                last,
                FuncView {
                    depth: old_funcs.last().depth,
                    upvalues: old_funcs.last().upvalues@.push(Upvalue { index }),
                },
            ));
        }
        match type_ {
            LocalType::Local(slot) => {
                self.decl_types.set(slot, VarDeclType::Upvalue);
            },
            LocalType::Call(_) => {},
        }
        var.var_type = VarType::Upvalue(index);
    }
}

/// A function being resolved, as a value: its depth and captured values.
pub struct FuncView {
    pub depth: usize,
    pub upvalues: Seq<Upvalue>,
}

/// What resolving an expression changes: the open functions, the number of
/// temporaries, and the kinds of the recorded declarations.
pub struct RState {
    pub funcs: Seq<FuncView>,
    pub temporaries: int,
    pub decls: Seq<VarDeclType>,
}

pub open spec fn func_views(fs: Seq<Func>) -> Seq<FuncView> {
    fs.map_values(|f: Func| FuncView { depth: f.depth, upvalues: f.upvalues@ })
}

/// The part of a resolver that resolving an expression changes.
pub open spec fn rstate(r: Resolver) -> RState {
    RState { funcs: func_views(r.funcs@), temporaries: r.temporaries as int, decls: r.decl_types@ }
}

pub open spec fn with_temps(st: RState, n: int) -> RState {
    RState { funcs: st.funcs, temporaries: n, decls: st.decls }
}

/// Resolving a read of `name` whose kind is `prior`, with the flattened locals
/// `ls` (`global` when no scope is open): the new state and the kind the read
/// gets, or `None` where resolution would fail (an integer overflow, a local
/// declared outside every function read inside one, a call slot captured).
pub open spec fn var_step(
    ls: Seq<Local>,
    global: bool,
    st: RState,
    name: Seq<char>,
    prior: VarType,
) -> Option<(RState, VarType)> {
    let st1 = with_temps(st, st.temporaries + 1);
    if st.temporaries >= usize::MAX || ls.len() > usize::MAX {
        None
    } else if global {
        Some((st1, prior))
    } else {
        match find_last(ls, name) {
            None => Some((st1, prior)),
            Some(j) => {
                let local = ls[j];
                let i = ls.len() - 1 - j;
                if st.funcs.len() > 0 && local.function_depth is None {
                    None
                } else if st.funcs.len() == 0 || local.function_depth == Some(st.funcs.last().depth) {
                    if i + st.temporaries <= usize::MAX {
                        Some((st1, VarType::Local(StackOffset((i + st.temporaries) as usize))))
                    } else {
                        None
                    }
                } else {
                    match local.type_ {
                        LocalType::Local(slot) => if slot < st.decls.len() {
                            let f = st.funcs.last();
                            let index = UpvalueIndex(f.upvalues.len() as usize);
                            Some(
                                (
                                    RState {
                                        funcs: st.funcs.update(
                                            st.funcs.len() - 1,
                                            FuncView {
                                                depth: f.depth,
                                                upvalues: f.upvalues.push(Upvalue { index }),
                                            },
                                        ),
                                        temporaries: st.temporaries + 1,
                                        decls: st.decls.update(slot as int, VarDeclType::Upvalue),
                                    },
                                    VarType::Upvalue(index),
                                ),
                            )
                        } else {
                            None
                        },
                        LocalType::Call(_) => None,
                    }
                }
            },
        }
    }
}

/// Resolving the variable reads of `e` from left to right, each operand
/// counted as a temporary once it is resolved: the new state and the
/// expression with its reads resolved, or `None` where resolution fails,
/// including on `super`, `this` and rectangle literals, which the resolver has
/// no rule for. Property reads are left as they are.
pub open spec fn walk(ls: Seq<Local>, g: bool, st: RState, e: SExpr) -> Option<(RState, SExpr)>
    decreases e, 0int,
{
    let temps = st.temporaries;
    match e {
        SExpr::Assign { target, value } => match walk(ls, g, st, *value) {
            Some((s1, v1)) => if temps + 1 <= usize::MAX {
                Some((with_temps(s1, temps + 1), SExpr::Assign { target, value: Box::new(v1) }))
            } else {
                None
            },
            None => None,
        },
        SExpr::Binary { left, operator, right, type_ } => match walk(ls, g, st, *left) {
            Some((s1, l1)) => if temps + 2 <= usize::MAX {
                match walk(ls, g, with_temps(s1, temps + 1), *right) {
                    Some((s2, r1)) => Some(
                        (
                            with_temps(s2, temps + 2),
                            SExpr::Binary { left: Box::new(l1), operator, right: Box::new(r1), type_ },
                        ),
                    ),
                    None => None,
                }
            } else {
                None
            },
            None => None,
        },
        SExpr::Call { callee, paren, args } => match walk(ls, g, st, *callee) {
            Some((s1, c1)) => if temps + 1 <= usize::MAX && temps + args.len() - 1 <= usize::MAX {
                match walk_args(ls, g, with_temps(s1, temps + 1), args, 0, temps, Seq::empty()) {
                    Some((s2, a2)) => Some((s2, SExpr::Call { callee: Box::new(c1), paren, args: a2 })),
                    None => None,
                }
            } else {
                None
            },
            None => None,
        },
        SExpr::Get { .. } => Some((st, e)),
        SExpr::Grouping { expr } => match walk(ls, g, st, *expr) {
            Some((s1, x1)) => Some((s1, SExpr::Grouping { expr: Box::new(x1) })),
            None => None,
        },
        SExpr::Literal { .. } => Some((st, e)),
        SExpr::Logical { left, operator, right, type_ } => match walk(ls, g, st, *left) {
            Some((s1, l1)) => if temps + 2 <= usize::MAX {
                match walk(ls, g, with_temps(s1, temps + 1), *right) {
                    Some((s2, r1)) => Some(
                        (
                            with_temps(s2, temps + 2),
                            SExpr::Logical { left: Box::new(l1), operator, right: Box::new(r1), type_ },
                        ),
                    ),
                    None => None,
                }
            } else {
                None
            },
            None => None,
        },
        SExpr::Rect { .. } => None,
        SExpr::SetProperty { target, name, value } => match walk(ls, g, st, *value) {
            Some((s1, v1)) => if temps + 1 <= usize::MAX {
                Some(
                    (
                        with_temps(s1, temps + 1),
                        SExpr::SetProperty { target, name, value: Box::new(v1) },
                    ),
                )
            } else {
                None
            },
            None => None,
        },
        SExpr::Super { .. } => None,
        SExpr::This { .. } => None,
        SExpr::Unary { operator, right, type_ } => match walk(ls, g, st, *right) {
            Some((s1, r1)) => if temps + 1 <= usize::MAX {
                Some((with_temps(s1, temps + 1), SExpr::Unary { operator, right: Box::new(r1), type_ }))
            } else {
                None
            },
            None => None,
        },
        SExpr::Variable { var } => match var_step(ls, g, st, var.name.lexeme, var.var_type) {
            Some((s1, t)) => Some((s1, SExpr::Variable { var: SVariable { name: var.name, var_type: t } })),
            None => None,
        },
    }
}

/// The arguments of a call from the `k`-th on, after `acc`: after the `k`-th
/// the temporaries are reset to `temps + k`.
pub open spec fn walk_args(
    ls: Seq<Local>,
    g: bool,
    st: RState,
    args: Seq<SExpr>,
    k: int,
    temps: int,
    acc: Seq<SExpr>,
) -> Option<(RState, Seq<SExpr>)>
    decreases args, args.len() - k,
{
    if k < 0 || k >= args.len() {
        Some((st, acc))
    } else {
        match walk(ls, g, st, args[k]) {
            Some((s1, a1)) => walk_args(ls, g, with_temps(s1, temps + k), args, k + 1, temps, acc.push(a1)),
            None => None,
        }
    }
}

impl Resolver {
    /// Resolves the variable reads of `expr`, left to right.
    pub fn resolve_expr(&mut self, expr: &mut Expr)
        requires
            walk(
                flat_locals(old(self).scopes@),
                old(self).scopes@.len() == 0,
                rstate(*old(self)),
                old(expr)@,
            ) is Some,
        ensures
            final(self).scopes@ == old(self).scopes@,
            walk(
                flat_locals(old(self).scopes@),
                old(self).scopes@.len() == 0,
                rstate(*old(self)),
                old(expr)@,
            ) == Some((rstate(*final(self)), final(expr)@)),
        decreases *old(expr),
    {
        let ghost ls = flat_locals(self.scopes@);
        let ghost g = self.scopes@.len() == 0;
        let temps = self.temporaries;
        match expr {
            Expr::Assign(a) => {
                self.resolve_expr(&mut a.value);
                self.temporaries = temps + 1;
            },
            Expr::Binary(b) => {
                self.resolve_expr(&mut b.left);
                self.temporaries = temps + 1;
                self.resolve_expr(&mut b.right);
                self.temporaries = temps + 2;
            },
            Expr::Call(c) => {
                let ghost args0 = (*c.args)@;
                let ghost callee0 = (*c.callee)@;
                self.resolve_expr(&mut c.callee);
                let ghost s1 = rstate(*self);
                assert(walk(ls, g, rstate(*old(self)), callee0) == Some((s1, (*c.callee)@)));
                assert((*c.args)@ == args0);
                self.temporaries = temps + 1;
                assert(rstate(*self) == with_temps(s1, temps + 1));
                let ghost orig = (*c.args)@;
                let ghost st0 = rstate(*self);
                let ghost callee1 = (*c.callee)@;
                let ghost paren0 = c.paren;
                assert(old(expr)@ == SExpr::Call {
                    callee: Box::new(callee0),
                    paren: paren0@,
                    args: exprs_view(orig),
                });
                let ghost goal = walk_args(ls, g, st0, exprs_view(orig), 0, temps as int, Seq::empty());
                assert((*(*old(expr))->Call_0.args)@ == orig);
                proof {
                    lemma_exprs_view_len(orig);
                    assert(orig.take(0) =~= Seq::<Expr>::empty());
                    assert(exprs_view(orig.take(0)) =~= Seq::<SExpr>::empty());
                }
                let mut k: usize = 0;
                while k < c.args.len()
                    invariant
                        k <= (*c.args)@.len(),
                        (*c.args)@.len() == orig.len(),
                        forall|j: int| k <= j < orig.len() ==> (*c.args)@[j] == orig[j],
                        self.scopes@ == old(self).scopes@,
                        (*c.callee)@ == callee1,
                        c.paren == paren0,
                        ls == flat_locals(self.scopes@),
                        g == (self.scopes@.len() == 0),
                        exprs_view(orig).len() == orig.len(),
                        temps + orig.len() - 1 <= usize::MAX,
                        *old(expr) is Call,
                        (*(*old(expr))->Call_0.args)@ == orig,
                        goal is Some,
                        walk_args(
                            ls,
                            g,
                            rstate(*self),
                            exprs_view(orig),
                            k as int,
                            temps as int,
                            exprs_view((*c.args)@.take(k as int)),
                        ) == goal,
                    decreases orig.len() - k,
                {
                    proof {
                        lemma_exprs_view_index(orig, k as int);
                    }
                    let ghost before = (*c.args)@;
                    proof {
                        let e0 = *old(expr);
                        let c0 = e0->Call_0;
                        assert(decreases_to!(e0 => c0));
                        assert(decreases_to!(c0 => c0.args));
                        assert(decreases_to!(*c0.args => (*c0.args)@));
                        assert(0 <= k < (*c0.args)@.len());
                        assert(decreases_to!((*c0.args)@ => (*c0.args)@[k as int]));
                    }
                    let args: &mut Vec<Expr> = &mut c.args;
                    self.resolve_expr(&mut args[k]);
                    self.temporaries = temps + k;
                    proof {
                        let after = (*c.args)@;
                        assert(after.take(k as int) =~= before.take(k as int));
                        assert(after.take(k as int + 1) =~= after.take(k as int).push(after[k as int]));
                        lemma_exprs_view_push(after.take(k as int), after[k as int]);
                    }
                    k = k + 1;
                }
                proof {
                    assert((*c.args)@.take(k as int) =~= (*c.args)@);
                    lemma_exprs_view_len((*c.args)@);
                    assert(goal == Some((rstate(*self), exprs_view((*c.args)@))));
                }
                assert(final(expr)@ == SExpr::Call {
                    callee: Box::new((*c.callee)@),
                    paren: c.paren@,
                    args: exprs_view((*c.args)@),
                });
            },
            Expr::Get(_) => {},
            Expr::Grouping(gr) => {
                self.resolve_expr(&mut gr.expr);
            },
            Expr::Literal(_) => {},
            Expr::Logical(l) => {
                self.resolve_expr(&mut l.left);
                self.temporaries = temps + 1;
                self.resolve_expr(&mut l.right);
                self.temporaries = temps + 2;
            },
            Expr::Rect(_) => {},
            Expr::SetProperty(sp) => {
                self.resolve_expr(&mut sp.value);
                self.temporaries = temps + 1;
            },
            Expr::Super(_) => {},
            Expr::This(_) => {},
            Expr::Unary(u) => {
                self.resolve_expr(&mut u.right);
                self.temporaries = temps + 1;
            },
            Expr::Variable(v) => {
                self.resolve_var_expr(v);
            },
        }
    }
}

/// The locals of a prefix of the scopes are a prefix of all the locals.
pub proof fn lemma_flat_locals_prefix(scopes: Seq<Scope>, k: int)
    requires
        0 <= k <= scopes.len(),
    ensures
        flat_locals(scopes.take(k)).len() <= flat_locals(scopes).len(),
        flat_locals(scopes.take(k)) == flat_locals(scopes).take(flat_locals(scopes.take(k)).len() as int),
    decreases scopes.len() - k,
{
    if k < scopes.len() {
        lemma_flat_locals_prefix(scopes, k + 1);
        assert(scopes.take(k + 1).drop_last() =~= scopes.take(k));
        let a = flat_locals(scopes.take(k));
        let b = flat_locals(scopes.take(k + 1));
        assert(b == a + scopes[k].locals@);
        assert(a =~= b.take(a.len() as int));
        assert(a =~= flat_locals(scopes).take(a.len() as int));
    } else {
        assert(scopes.take(k) =~= scopes);
        assert(flat_locals(scopes) =~= flat_locals(scopes).take(flat_locals(scopes).len() as int));
    }
}

} // verus!

