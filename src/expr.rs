//! Unresolved and resolved expressions, and the resolver that types them
//! against an input schema.
use vstd::prelude::*;
use vstd::string::*;
use crate::types::{
    BinOp, Builtin, Field, TypeTag, accepts, arity_ok, builtin_name, call_type, count_named, is_numeric,
    is_numeric_tag, last_named, lemma_last_named_bounds, lexeme_type, lookup_builtin,
    lookup_column, op_symbol, promote, promote_tags, signature_accepts, classify_literal,
};

verus! {

/// An expression as written, before it is bound to a schema.
#[derive(Debug)]
pub enum UnresolvedExpr {
    /// A literal in its lexical form: `5`, `2.4`, `'hello'`, `true`, `null`.
    Literal(String),
    Column(String),
    Binary(BinOp, Box<UnresolvedExpr>, Box<UnresolvedExpr>),
    Call(String, Vec<UnresolvedExpr>),
    Alias(Box<UnresolvedExpr>, String),
}

/// An expression bound to an input schema, with its type.
#[derive(Debug)]
pub enum Expression {
    Literal { text: String, tag: TypeTag },
    ColumnRef { name: String, index: usize, tag: TypeTag },
    BinaryOp { op: BinOp, left: Box<Expression>, right: Box<Expression>, result_type: TypeTag },
    FunctionCall { func: Builtin, args: Vec<Expression>, result_type: TypeTag },
    Alias { inner: Box<Expression>, output_name: String },
}

/// Why an expression could not be resolved.
#[derive(Debug)]
pub enum ResolutionError {
    InvalidLiteral(String),
    UnknownColumn(String),
    AmbiguousColumn(String),
    UnknownFunction(String),
    ArgumentTypeMismatch(Builtin),
    TypeMismatch(BinOp),
}

/// The type of a resolved expression.
pub open spec fn type_of(e: Expression) -> TypeTag
    decreases e,
{
    match e {
        Expression::Literal { tag, .. } => tag,
        Expression::ColumnRef { tag, .. } => tag,
        Expression::BinaryOp { result_type, .. } => result_type,
        Expression::FunctionCall { result_type, .. } => result_type,
        Expression::Alias { inner, .. } => type_of(*inner),
    }
}

pub open spec fn types_of(es: Seq<Expression>) -> Seq<TypeTag> {
    es.map_values(|e: Expression| type_of(e))
}

pub open spec fn binary_name(l: Seq<char>, op: BinOp, r: Seq<char>) -> Seq<char> {
    l + seq![' ', op_symbol(op), ' '] + r
}

pub open spec fn call_name(f: Seq<char>, args: Seq<char>) -> Seq<char> {
    f + seq!['('] + args + seq![')']
}

/// The output name of a resolved expression: its alias, or else a canonical
/// rendering such as `abs(age)` or `age + 5`.
pub open spec fn output_name(e: Expression) -> Seq<char>
    decreases e,
{
    match e {
        Expression::Literal { text, .. } => text@,
        Expression::ColumnRef { name, .. } => name@,
        Expression::BinaryOp { op, left, right, .. } => binary_name(
            output_name(*left),
            op,
            output_name(*right),
        ),
        Expression::FunctionCall { func, args, .. } => call_name(
            builtin_name(func),
            joined_names(args@),
        ),
        Expression::Alias { output_name, .. } => output_name@,
    }
}

/// The output names of `es`, separated by `", "`.
pub open spec fn joined_names(es: Seq<Expression>) -> Seq<char>
    decreases es,
{
    if es.len() == 0 {
        seq![]
    } else if es.len() == 1 {
        output_name(es[0])
    } else {
        joined_names(es.drop_last()) + seq![',', ' '] + output_name(es.last())
    }
}

/// The output name an unresolved expression will have once resolved.
pub open spec fn display_name(u: UnresolvedExpr) -> Seq<char>
    decreases u,
{
    match u {
        UnresolvedExpr::Literal(t) => t@,
        UnresolvedExpr::Column(c) => c@,
        UnresolvedExpr::Binary(op, l, r) => binary_name(display_name(*l), op, display_name(*r)),
        UnresolvedExpr::Call(n, args) => call_name(
            match lookup_builtin(n@) {
                Some(f) => builtin_name(f),
                None => n@,
            },
            joined_display(args@),
        ),
        UnresolvedExpr::Alias(_, name) => name@,
    }
}

pub open spec fn joined_display(us: Seq<UnresolvedExpr>) -> Seq<char>
    decreases us,
{
    if us.len() == 0 {
        seq![]
    } else if us.len() == 1 {
        display_name(us[0])
    } else {
        joined_display(us.drop_last()) + seq![',', ' '] + display_name(us.last())
    }
}

/// The name of an unresolved expression without its top-level alias.
pub open spec fn base_display(u: UnresolvedExpr) -> Seq<char> {
    match u {
        UnresolvedExpr::Alias(inner, _) => display_name(*inner),
        _ => display_name(u),
    }
}

/// The output name of a resolved expression without its top-level alias.
pub open spec fn base_name(e: Expression) -> Seq<char> {
    match e {
        Expression::Alias { inner, .. } => output_name(*inner),
        _ => output_name(e),
    }
}

/// What resolving `u` against the columns `s` gives: the type of the result, or
/// the first error met, left to right.
pub open spec fn outcome(u: UnresolvedExpr, s: Seq<Field>) -> Result<TypeTag, ResolutionError>
    decreases u,
{
    match u {
        UnresolvedExpr::Literal(t) => match lexeme_type(t@) {
            Some(tag) => Ok(tag),
            None => Err(ResolutionError::InvalidLiteral(t)),
        },
        UnresolvedExpr::Column(c) => if count_named(s, c@) == 0 {
            Err(ResolutionError::UnknownColumn(c))
        } else if count_named(s, c@) > 1 {
            Err(ResolutionError::AmbiguousColumn(c))
        } else {
            Ok(s[last_named(s, c@)].tag)
        },
        UnresolvedExpr::Binary(op, l, r) => match outcome(*l, s) {
            Err(e) => Err(e),
            Ok(lt) => match outcome(*r, s) {
                Err(e) => Err(e),
                Ok(rt) => if is_numeric(lt) && is_numeric(rt) {
                    Ok(promote(op, lt, rt))
                } else {
                    Err(ResolutionError::TypeMismatch(op))
                },
            },
        },
        UnresolvedExpr::Call(n, args) => match lookup_builtin(n@) {
            None => Err(ResolutionError::UnknownFunction(n)),
            Some(f) => match args_outcome(args@, s) {
                Err(e) => Err(e),
                Ok(ts) => if signature_accepts(f, ts) {
                    Ok(call_type(f, ts[0]))
                } else {
                    Err(ResolutionError::ArgumentTypeMismatch(f))
                },
            },
        },
        UnresolvedExpr::Alias(inner, _) => outcome(*inner, s),
    }
}

/// Resolves `us` left to right: their types, or the first error met.
pub open spec fn args_outcome(us: Seq<UnresolvedExpr>, s: Seq<Field>) -> Result<
    Seq<TypeTag>,
    ResolutionError,
>
    decreases us,
{
    if us.len() == 0 {
        Ok(seq![])
    } else {
        match args_outcome(us.drop_last(), s) {
            Err(e) => Err(e),
            Ok(ts) => match outcome(us.last(), s) {
                Err(e) => Err(e),
                Ok(t) => Ok(ts.push(t)),
            },
        }
    }
}

/// `e` is the resolution of `u` against the columns `s`.
pub open spec fn resolves_to(u: UnresolvedExpr, s: Seq<Field>, e: Expression) -> bool
    decreases u,
{
    match u {
        UnresolvedExpr::Literal(t) => match e {
            Expression::Literal { text, tag } => text@ == t@ && lexeme_type(t@) == Some(tag),
            _ => false,
        },
        UnresolvedExpr::Column(c) => match e {
            Expression::ColumnRef { name, index, tag } => {
                &&& name@ == c@
                &&& count_named(s, c@) == 1
                &&& index == last_named(s, c@)
                &&& tag == s[index as int].tag
            },
            _ => false,
        },
        UnresolvedExpr::Binary(op, l, r) => match e {
            Expression::BinaryOp { op: eop, left, right, result_type } => {
                &&& eop == op
                &&& resolves_to(*l, s, *left)
                &&& resolves_to(*r, s, *right)
                &&& result_type == promote(op, type_of(*left), type_of(*right))
            },
            _ => false,
        },
        UnresolvedExpr::Call(n, args) => match e {
            Expression::FunctionCall { func, args: eargs, result_type } => {
                &&& lookup_builtin(n@) == Some(func)
                &&& args_resolve_to(args@, s, eargs@)
                &&& result_type == call_type(func, type_of(eargs@[0]))
            },
            _ => false,
        },
        UnresolvedExpr::Alias(inner, name) => match e {
            Expression::Alias { inner: ei, output_name } => {
                output_name@ == name@ && resolves_to(*inner, s, *ei)
            },
            _ => false,
        },
    }
}

/// Each of `es` is the resolution of the expression at the same position in `us`.
pub open spec fn args_resolve_to(us: Seq<UnresolvedExpr>, s: Seq<Field>, es: Seq<Expression>) -> bool
    decreases us,
{
    &&& us.len() == es.len()
    &&& us.len() > 0 ==> {
        &&& args_resolve_to(us.drop_last(), s, es.drop_last())
        &&& resolves_to(us.last(), s, es.last())
    }
}

/// `e` is consistent with the columns `s`: each column reference names the
/// column at its position, with that column's type.
pub open spec fn expr_wf(e: Expression, s: Seq<Field>) -> bool
    decreases e,
{
    match e {
        Expression::Literal { .. } => true,
        Expression::ColumnRef { name, index, tag } => {
            &&& index < s.len()
            &&& s[index as int].name@ == name@
            &&& s[index as int].tag == tag
        },
        Expression::BinaryOp { left, right, .. } => expr_wf(*left, s) && expr_wf(*right, s),
        Expression::FunctionCall { args, .. } => args_wf(args@, s),
        Expression::Alias { inner, .. } => expr_wf(*inner, s),
    }
}

/// Each of `es` is consistent with the columns `s`.
pub open spec fn args_wf(es: Seq<Expression>, s: Seq<Field>) -> bool
    decreases es,
{
    es.len() > 0 ==> args_wf(es.drop_last(), s) && expr_wf(es.last(), s)
}

/// An error met while resolving a prefix of a list stays the error of the list.
proof fn lemma_args_outcome_err(us: Seq<UnresolvedExpr>, s: Seq<Field>, k: int)
    requires
        0 <= k <= us.len(),
        args_outcome(us.subrange(0, k), s) is Err,
    ensures
        args_outcome(us, s) == args_outcome(us.subrange(0, k), s),
    decreases us.len(),
{
    if us.len() == k {
        assert(us.subrange(0, k) =~= us);
    } else {
        assert(us.drop_last().subrange(0, k) =~= us.subrange(0, k));
        lemma_args_outcome_err(us.drop_last(), s, k);
    }
}

fn op_text(op: BinOp) -> (r: &'static str)
    ensures
        r@ == seq![' ', op_symbol(op), ' '],
{
    proof {
        reveal_strlit(" + ");
        reveal_strlit(" - ");
        reveal_strlit(" * ");
        reveal_strlit(" / ");
    }
    match op {
        BinOp::Add => " + ",
        BinOp::Sub => " - ",
        BinOp::Mul => " * ",
        BinOp::Div => " / ",
    }
}

impl Expression {
    /// The output name without the top-level alias.
    pub fn base_name(&self) -> (r: String)
        ensures
            r@ == base_name(*self),
    {
        match self {
            Expression::Alias { inner, .. } => inner.output_name(),
            _ => self.output_name(),
        }
    }

    pub fn is_alias(&self) -> (r: bool)
        ensures
            r == (*self is Alias),
    {
        match self {
            Expression::Alias { .. } => true,
            _ => false,
        }
    }

    /// The type of this expression.
    pub fn type_tag(&self) -> (r: TypeTag)
        ensures
            r == type_of(*self),
        decreases self,
    {
        match self {
            Expression::Literal { tag, .. } => *tag,
            Expression::ColumnRef { tag, .. } => *tag,
            Expression::BinaryOp { result_type, .. } => *result_type,
            Expression::FunctionCall { result_type, .. } => *result_type,
            Expression::Alias { inner, .. } => inner.type_tag(),
        }
    }

    /// The output name of this expression.
    pub fn output_name(&self) -> (r: String)
        ensures
            r@ == output_name(*self),
        decreases self,
    {
        match self {
            Expression::Literal { text, .. } => text.clone(),
            Expression::ColumnRef { name, .. } => name.clone(),
            Expression::BinaryOp { op, left, right, .. } => {
                let mut r = left.output_name();
                r.append(op_text(*op));
                let rn = right.output_name();
                r.append(rn.as_str());
                r
            },
            Expression::FunctionCall { func, args, .. } => {
                let mut r = String::from_str(func.name());
                proof {
                    reveal_strlit("(");
                    reveal_strlit(")");
                    reveal_strlit(", ");
                }
                r.append("(");
                let ghost head = r@;
                let mut i: usize = 0;
                while i < args.len()
                    invariant
                        i <= args@.len(),
                        *self == (Expression::FunctionCall {
                            func: *func,
                            args: *args,
                            result_type: self->FunctionCall_result_type,
                        }),
                        head == builtin_name(*func) + seq!['('],
                        r@ == head + joined_names(args@.subrange(0, i as int)),
                    decreases args@.len() - i,
                {
                    proof {
                        broadcast use vstd::std_specs::vec::axiom_vec_index_decreases;
                        assert(self->FunctionCall_args == *args);
                        assert(decreases_to!(*self => self->FunctionCall_args));
                        assert(args@.subrange(0, i + 1).drop_last() =~= args@.subrange(0, i as int));
                    }
                    if i > 0 {
                        r.append(", ");
                    }
                    let an = args[i].output_name();
                    r.append(an.as_str());
                    proof {
                        reveal_strlit(", ");
                        if i == 0 {
                            assert(args@.subrange(0, 1) =~= seq![args@[0]]);
                        }
                        assert(r@ =~= head + joined_names(args@.subrange(0, i + 1)));
                    }
                    i = i + 1;
                }
                proof {
                    reveal_strlit(")");
                }
                r.append(")");
                assert(args@.subrange(0, args@.len() as int) =~= args@);
                assert(r@ =~= call_name(builtin_name(*func), joined_names(args@)));
                r
            },
            Expression::Alias { output_name, .. } => output_name.clone(),
        }
    }
}

/// Resolves `u` against the columns `s`: binds column references to their
/// position, checks operand and argument types, and derives the result type.
/// Succeeds exactly when `outcome` gives a type, and fails with the error it gives.
pub fn resolve(u: &UnresolvedExpr, s: &Vec<Field>) -> (r: Result<Expression, ResolutionError>)
    ensures
        match r {
            Ok(e) => {
                &&& outcome(*u, s@) == Ok::<TypeTag, ResolutionError>(type_of(e))
                &&& resolves_to(*u, s@, e)
                &&& output_name(e) == display_name(*u)
                &&& base_name(e) == base_display(*u)
                &&& (e is Alias <==> *u is Alias)
                &&& expr_wf(e, s@)
            },
            Err(err) => outcome(*u, s@) == Err::<TypeTag, ResolutionError>(err),
        },
    decreases u,
{
    match u {
        UnresolvedExpr::Literal(t) => match classify_literal(t.as_str()) {
            Some(tag) => Ok(Expression::Literal { text: t.clone(), tag }),
            None => Err(ResolutionError::InvalidLiteral(t.clone())),
        },
        UnresolvedExpr::Column(c) => {
            let (count, at) = lookup_column(s, c);
            if count == 0 {
                Err(ResolutionError::UnknownColumn(c.clone()))
            } else if count > 1 {
                Err(ResolutionError::AmbiguousColumn(c.clone()))
            } else {
                proof {
                    lemma_last_named_bounds(s@, c@);
                }
                Ok(Expression::ColumnRef { name: c.clone(), index: at, tag: s[at].tag })
            }
        },
        UnresolvedExpr::Binary(op, l, r) => {
            let le = match resolve(l, s) {
                Ok(e) => e,
                Err(e) => {
                    return Err(e);
                },
            };
            let re = match resolve(r, s) {
                Ok(e) => e,
                Err(e) => {
                    return Err(e);
                },
            };
            let lt = le.type_tag();
            let rt = re.type_tag();
            if is_numeric_tag(lt) && is_numeric_tag(rt) {
                let t = promote_tags(*op, lt, rt);
                Ok(Expression::BinaryOp { op: *op, left: Box::new(le), right: Box::new(re), result_type: t })
            } else {
                Err(ResolutionError::TypeMismatch(*op))
            }
        },
        UnresolvedExpr::Call(n, args) => {
            let f = match Builtin::lookup(n.as_str()) {
                Some(f) => f,
                None => {
                    return Err(ResolutionError::UnknownFunction(n.clone()));
                },
            };
            let mut out: Vec<Expression> = Vec::new();
            let mut i: usize = 0;
            proof {
                assert(types_of(out@) =~= seq![]);
                assert(args@.subrange(0, 0) =~= Seq::<UnresolvedExpr>::empty());
            }
            while i < args.len()
                invariant
                    *u == UnresolvedExpr::Call(*n, *args),
                    lookup_builtin(n@) == Some(f),
                    i <= args@.len(),
                    out@.len() == i,
                    args_resolve_to(args@.subrange(0, i as int), s@, out@),
                    args_wf(out@, s@),
                    args_outcome(args@.subrange(0, i as int), s@) == Ok::<
                        Seq<TypeTag>,
                        ResolutionError,
                    >(types_of(out@)),
                    joined_names(out@) == joined_display(args@.subrange(0, i as int)),
                decreases args@.len() - i,
            {
                proof {
                    broadcast use vstd::std_specs::vec::axiom_vec_index_decreases;
                    assert(u->Call_1 == *args);
                    assert(decreases_to!(*u => u->Call_1));
                    assert(args@.subrange(0, i + 1).drop_last() =~= args@.subrange(0, i as int));
                    assert(args@.subrange(0, i + 1).last() == args@[i as int]);
                }
                match resolve(&args[i], s) {
                    Ok(e) => {
                        let ghost prev = out@;
                        out.push(e);
                        proof {
                            assert(out@.drop_last() =~= prev);
                            assert(types_of(out@) =~= types_of(prev).push(type_of(e)));
                            if i == 0 {
                                assert(args@.subrange(0, 1) =~= seq![args@[0]]);
                            }
                        }
                    },
                    Err(e) => {
                        proof {
                            lemma_args_outcome_err(args@, s@, i + 1);
                        }
                        return Err(e);
                    },
                }
                i = i + 1;
            }
            proof {
                assert(args@.subrange(0, args@.len() as int) =~= args@);
            }
            let ghost ts = types_of(out@);
            if !f.arity_accepted(out.len()) {
                return Err(ResolutionError::ArgumentTypeMismatch(f));
            }
            let mut j: usize = 0;
            while j < out.len()
                invariant
                    j <= out@.len(),
                    ts == types_of(out@),
                    *u == UnresolvedExpr::Call(*n, *args),
                    lookup_builtin(n@) == Some(f),
                    args_outcome(args@, s@) == Ok::<Seq<TypeTag>, ResolutionError>(ts),
                    arity_ok(f, ts.len()),
                    out@.len() == args@.len(),
                    args_resolve_to(args@, s@, out@),
                    args_wf(out@, s@),
                    joined_names(out@) == joined_display(args@),
                    forall|k: int| 0 <= k < j ==> #[trigger] accepts(f, k, ts[k]),
                decreases out@.len() - j,
            {
                if !f.accepts_arg(j, out[j].type_tag()) {
                    assert(!accepts(f, j as int, ts[j as int]));
                    return Err(ResolutionError::ArgumentTypeMismatch(f));
                }
                j = j + 1;
            }
            let t = f.result_type(out[0].type_tag());
            Ok(Expression::FunctionCall { func: f, args: out, result_type: t })
        },
        UnresolvedExpr::Alias(inner, name) => {
            let e = match resolve(inner, s) {
                Ok(e) => e,
                Err(e) => {
                    return Err(e);
                },
            };
            Ok(Expression::Alias { inner: Box::new(e), output_name: name.clone() })
        },
    }
}

/// The type of a literal is decided by its lexical form alone: resolving it
/// against any two schemas gives the same outcome.
pub proof fn lemma_literal_type_schema_independent(t: String, s1: Seq<Field>, s2: Seq<Field>)
    ensures
        outcome(UnresolvedExpr::Literal(t), s1) == outcome(UnresolvedExpr::Literal(t), s2),
        outcome(UnresolvedExpr::Literal(t), s1) is Ok <==> lexeme_type(t@) is Some,
        lexeme_type(t@) is Some ==> outcome(UnresolvedExpr::Literal(t), s1) == Ok::<
            TypeTag,
            ResolutionError,
        >(lexeme_type(t@)->0),
{
}

/// A column reference resolves exactly when its name occurs once in the
/// schema, to that column; it is ambiguous exactly when the name occurs more
/// than once, and unknown exactly when it does not occur.
pub proof fn lemma_column_resolution(c: String, s: Seq<Field>)
    ensures
        outcome(UnresolvedExpr::Column(c), s) is Ok <==> count_named(s, c@) == 1,
        outcome(UnresolvedExpr::Column(c), s) == Err::<TypeTag, ResolutionError>(
            ResolutionError::AmbiguousColumn(c),
        ) <==> count_named(s, c@) > 1,
        outcome(UnresolvedExpr::Column(c), s) == Err::<TypeTag, ResolutionError>(
            ResolutionError::UnknownColumn(c),
        ) <==> count_named(s, c@) == 0,
        count_named(s, c@) == 1 ==> {
            let k = last_named(s, c@);
            &&& 0 <= k < s.len()
            &&& s[k].name@ == c@
            &&& outcome(UnresolvedExpr::Column(c), s) == Ok::<TypeTag, ResolutionError>(s[k].tag)
        },
{
    if count_named(s, c@) > 0 {
        lemma_last_named_bounds(s, c@);
    }
}

} // verus!
