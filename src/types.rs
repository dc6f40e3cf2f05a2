//! Scalar type tags, schema fields, column lookup and the built-in function table.
use vstd::prelude::*;
use vstd::string::*;

verus! {

/// The scalar type carried by every resolved expression.
#[derive(Clone, Copy, Debug, PartialEq, Eq, Structural)]
pub enum TypeTag {
    Integer64,
    Float64,
    Utf8String,
    Boolean,
    Null,
}

pub open spec fn is_numeric(t: TypeTag) -> bool {
    t is Integer64 || t is Float64
}

/// Arithmetic operators.
#[derive(Clone, Copy, Debug, PartialEq, Eq, Structural)]
pub enum BinOp {
    Add,
    Sub,
    Mul,
    Div,
}

/// Numeric promotion: any `Float64` operand, or a division, gives `Float64`.
pub open spec fn promote(op: BinOp, l: TypeTag, r: TypeTag) -> TypeTag {
    if l is Float64 || r is Float64 || op is Div {
        TypeTag::Float64
    } else {
        TypeTag::Integer64
    }
}

pub open spec fn op_symbol(op: BinOp) -> char {
    match op {
        BinOp::Add => '+',
        BinOp::Sub => '-',
        BinOp::Mul => '*',
        BinOp::Div => '/',
    }
}

pub fn is_numeric_tag(t: TypeTag) -> (r: bool)
    ensures
        r == is_numeric(t),
{
    match t {
        TypeTag::Integer64 | TypeTag::Float64 => true,
        _ => false,
    }
}

pub fn promote_tags(op: BinOp, l: TypeTag, r: TypeTag) -> (t: TypeTag)
    ensures
        t == promote(op, l, r),
{
    match (op, l, r) {
        (BinOp::Div, _, _) | (_, TypeTag::Float64, _) | (_, _, TypeTag::Float64) => TypeTag::Float64,
        _ => TypeTag::Integer64,
    }
}

/// One named, typed column of a schema.
#[derive(Debug)]
pub struct Field {
    pub name: String,
    pub tag: TypeTag,
}

impl Field {
    pub fn new(name: String, tag: TypeTag) -> (f: Field)
        ensures
            f.name == name,
            f.tag == tag,
    {
        Field { name, tag }
    }

    pub fn copy(&self) -> (f: Field)
        ensures
            f == *self,
    {
        Field { name: self.name.clone(), tag: self.tag }
    }
}

/// What a schema is, for comparison: the names and types of its columns, in order.
pub open spec fn schema_view(s: Seq<Field>) -> Seq<(Seq<char>, TypeTag)> {
    s.map_values(|f: Field| (f.name@, f.tag))
}

pub fn copy_schema(s: &Vec<Field>) -> (r: Vec<Field>)
    ensures
        r@ == s@,
{
    let mut r: Vec<Field> = Vec::new();
    let mut i: usize = 0;
    while i < s.len()
        invariant
            i <= s@.len(),
            r@.len() == i,
            forall|j: int| 0 <= j < i ==> r@[j] == s@[j],
        decreases s@.len() - i,
    {
        r.push(s[i].copy());
        i = i + 1;
    }
    assert(r@ =~= s@);
    r
}

/// Number of columns of `s` named `c`.
pub open spec fn count_named(s: Seq<Field>, c: Seq<char>) -> nat
    decreases s.len(),
{
    if s.len() == 0 {
        0
    } else {
        count_named(s.drop_last(), c) + if s.last().name@ == c { 1nat } else { 0nat }
    }
}

/// Position of the last column of `s` named `c` (meaningful when there is one).
pub open spec fn last_named(s: Seq<Field>, c: Seq<char>) -> int
    decreases s.len(),
{
    if s.len() == 0 {
        -1
    } else if s.last().name@ == c {
        s.len() - 1
    } else {
        last_named(s.drop_last(), c)
    }
}

pub proof fn lemma_last_named_bounds(s: Seq<Field>, c: Seq<char>)
    requires
        count_named(s, c) > 0,
    ensures
        0 <= last_named(s, c) < s.len(),
        s[last_named(s, c)].name@ == c,
    decreases s.len(),
{
    if s.last().name@ != c {
        lemma_last_named_bounds(s.drop_last(), c);
    }
}

/// Compares two strings for equality.
pub fn same_text(a: &String, b: &String) -> (r: bool)
    ensures
        r == (a@ == b@),
{
    *a == *b
}

/// Counts the columns of `s` named `c` and returns it with the position of the
/// last of them.
pub fn lookup_column(s: &Vec<Field>, c: &String) -> (r: (usize, usize))
    ensures
        r.0 == count_named(s@, c@),
        r.0 > 0 ==> r.1 == last_named(s@, c@),
{
    let mut count: usize = 0;
    let mut at: usize = 0;
    let mut i: usize = 0;
    while i < s.len()
        invariant
            i <= s@.len(),
            count == count_named(s@.subrange(0, i as int), c@),
            count <= i,
            count > 0 ==> at == last_named(s@.subrange(0, i as int), c@),
        decreases s@.len() - i,
    {
        proof {
            assert(s@.subrange(0, i + 1).drop_last() =~= s@.subrange(0, i as int));
        }
        if same_text(&s[i].name, c) {
            count = count + 1;
            at = i;
        }
        i = i + 1;
    }
    assert(s@.subrange(0, s@.len() as int) =~= s@);
    (count, at)
}

/// ASCII case-insensitive equality against a lower-case word.
pub open spec fn matches_word(t: Seq<char>, word: Seq<char>) -> bool {
    &&& t.len() == word.len()
    &&& forall|i: int|
        0 <= i < t.len() ==> #[trigger] t[i] == word[i] || ('A' <= t[i] <= 'Z' && t[i] as u32 + 32
            == word[i] as u32)
}

pub fn is_word(t: &str, word: &str) -> (r: bool)
    ensures
        r == matches_word(t@, word@),
{
    let n = t.unicode_len();
    if n != word.unicode_len() {
        return false;
    }
    let mut i: usize = 0;
    while i < n
        invariant
            n == t@.len(),
            n == word@.len(),
            i <= n,
            forall|j: int|
                0 <= j < i ==> #[trigger] t@[j] == word@[j] || ('A' <= t@[j] <= 'Z' && t@[j] as u32
                    + 32 == word@[j] as u32),
        decreases n - i,
    {
        let a = t.get_char(i);
        let b = word.get_char(i);
        if !(a == b || ('A' <= a && a <= 'Z' && (a as u32) + 32 == b as u32)) {
            return false;
        }
        i = i + 1;
    }
    true
}

/// The built-in scalar functions.
#[derive(Clone, Copy, Debug, PartialEq, Eq, Structural)]
pub enum Builtin {
    Upper,
    Lower,
    Substring,
    Abs,
    Round,
    Length,
}

/// The canonical, lower-case name of a built-in function.
pub open spec fn builtin_name(f: Builtin) -> Seq<char> {
    match f {
        Builtin::Upper => "upper"@,
        Builtin::Lower => "lower"@,
        Builtin::Substring => "substring"@,
        Builtin::Abs => "abs"@,
        Builtin::Round => "round"@,
        Builtin::Length => "length"@,
    }
}

/// Looks a function name up in the built-in table, ignoring ASCII case.
pub open spec fn lookup_builtin(n: Seq<char>) -> Option<Builtin> {
    if matches_word(n, "upper"@) {
        Some(Builtin::Upper)
    } else if matches_word(n, "lower"@) {
        Some(Builtin::Lower)
    } else if matches_word(n, "substring"@) {
        Some(Builtin::Substring)
    } else if matches_word(n, "abs"@) {
        Some(Builtin::Abs)
    } else if matches_word(n, "round"@) {
        Some(Builtin::Round)
    } else if matches_word(n, "length"@) {
        Some(Builtin::Length)
    } else {
        None
    }
}

/// Number of arguments a function takes.
pub open spec fn arity_ok(f: Builtin, n: nat) -> bool {
    match f {
        Builtin::Substring => n == 2 || n == 3,
        _ => n == 1,
    }
}

/// Whether argument `pos` of `f` accepts a value of type `t`.
pub open spec fn accepts(f: Builtin, pos: int, t: TypeTag) -> bool {
    match f {
        Builtin::Upper | Builtin::Lower | Builtin::Length => t is Utf8String,
        Builtin::Substring => if pos == 0 {
            t is Utf8String
        } else {
            t is Integer64
        },
        Builtin::Abs | Builtin::Round => is_numeric(t),
    }
}

/// Whether `f` accepts arguments of the types `ts`, in number and in type.
pub open spec fn signature_accepts(f: Builtin, ts: Seq<TypeTag>) -> bool {
    arity_ok(f, ts.len()) && forall|i: int| 0 <= i < ts.len() ==> #[trigger] accepts(f, i, ts[i])
}

/// Result type of `f` given the type of its first argument.
pub open spec fn call_type(f: Builtin, first: TypeTag) -> TypeTag {
    match f {
        Builtin::Upper | Builtin::Lower | Builtin::Substring => TypeTag::Utf8String,
        Builtin::Length => TypeTag::Integer64,
        Builtin::Abs => first,
        Builtin::Round => TypeTag::Float64,
    }
}

impl Builtin {
    pub fn name(self) -> (r: &'static str)
        ensures
            r@ == builtin_name(self),
    {
        match self {
            Builtin::Upper => "upper",
            Builtin::Lower => "lower",
            Builtin::Substring => "substring",
            Builtin::Abs => "abs",
            Builtin::Round => "round",
            Builtin::Length => "length",
        }
    }

    pub fn lookup(n: &str) -> (r: Option<Builtin>)
        ensures
            r == lookup_builtin(n@),
    {
        if is_word(n, "upper") {
            Some(Builtin::Upper)
        } else if is_word(n, "lower") {
            Some(Builtin::Lower)
        } else if is_word(n, "substring") {
            Some(Builtin::Substring)
        } else if is_word(n, "abs") {
            Some(Builtin::Abs)
        } else if is_word(n, "round") {
            Some(Builtin::Round)
        } else if is_word(n, "length") {
            Some(Builtin::Length)
        } else {
            None
        }
    }

    pub fn arity_accepted(self, n: usize) -> (r: bool)
        ensures
            r == arity_ok(self, n as nat),
    {
        match self {
            Builtin::Substring => n == 2 || n == 3,
            _ => n == 1,
        }
    }

    pub fn accepts_arg(self, pos: usize, t: TypeTag) -> (r: bool)
        ensures
            r == accepts(self, pos as int, t),
    {
        match self {
            Builtin::Upper | Builtin::Lower | Builtin::Length => t == TypeTag::Utf8String,
            Builtin::Substring => if pos == 0 {
                t == TypeTag::Utf8String
            } else {
                t == TypeTag::Integer64
            },
            Builtin::Abs | Builtin::Round => is_numeric_tag(t),
        }
    }

    pub fn result_type(self, first: TypeTag) -> (r: TypeTag)
        ensures
            r == call_type(self, first),
    {
        match self {
            Builtin::Upper | Builtin::Lower | Builtin::Substring => TypeTag::Utf8String,
            Builtin::Length => TypeTag::Integer64,
            Builtin::Abs => first,
            Builtin::Round => TypeTag::Float64,
        }
    }
}

/// Each canonical name looks up its own function.
pub proof fn lemma_builtin_name_lookup(f: Builtin)
    ensures
        lookup_builtin(builtin_name(f)) == Some(f),
{
    reveal_strlit("upper");
    reveal_strlit("lower");
    reveal_strlit("substring");
    reveal_strlit("abs");
    reveal_strlit("round");
    reveal_strlit("length");
    match f {
        Builtin::Upper => {},
        Builtin::Lower => {
            assert("lower"@[0] != "upper"@[0]);
        },
        Builtin::Round => {
            assert("round"@[0] != "upper"@[0]);
            assert("round"@[0] != "lower"@[0]);
        },
        _ => {},
    }
}

pub open spec fn is_digit(c: char) -> bool {
    '0' <= c <= '9'
}

/// A numeric lexeme without its leading minus sign, if any.
pub open spec fn unsigned_part(t: Seq<char>) -> Seq<char> {
    if t.len() > 0 && t[0] == '-' {
        t.drop_first()
    } else {
        t
    }
}

pub open spec fn count_char(t: Seq<char>, c: char) -> nat
    decreases t.len(),
{
    if t.len() == 0 {
        0
    } else {
        count_char(t.drop_last(), c) + if t.last() == c { 1nat } else { 0nat }
    }
}

/// An optional minus sign and one or more digits.
pub open spec fn is_integer_lexeme(t: Seq<char>) -> bool {
    let u = unsigned_part(t);
    u.len() > 0 && forall|i: int| 0 <= i < u.len() ==> #[trigger] is_digit(u[i])
}

/// An optional minus sign, then digits around exactly one decimal point.
pub open spec fn is_decimal_lexeme(t: Seq<char>) -> bool {
    let u = unsigned_part(t);
    &&& u.len() >= 3
    &&& is_digit(u[0])
    &&& is_digit(u.last())
    &&& count_char(u, '.') == 1
    &&& forall|i: int| 0 <= i < u.len() ==> #[trigger] is_digit(u[i]) || u[i] == '.'
}

/// Text between single quotes.
pub open spec fn is_quoted_lexeme(t: Seq<char>) -> bool {
    t.len() >= 2 && t[0] == '\'' && t.last() == '\''
}

/// The type of a literal, decided by its lexical form alone.
pub open spec fn lexeme_type(t: Seq<char>) -> Option<TypeTag> {
    if is_quoted_lexeme(t) {
        Some(TypeTag::Utf8String)
    } else if is_integer_lexeme(t) {
        Some(TypeTag::Integer64)
    } else if is_decimal_lexeme(t) {
        Some(TypeTag::Float64)
    } else if matches_word(t, "true"@) || matches_word(t, "false"@) {
        Some(TypeTag::Boolean)
    } else if matches_word(t, "null"@) {
        Some(TypeTag::Null)
    } else {
        None
    }
}

/// Classifies the characters of `u` from position `from` on: whether all are
/// digits, and how many are decimal points when the rest are digits.
fn scan_number(u: &str, from: usize) -> (r: (bool, usize))
    requires
        from <= u@.len(),
    ensures
        r.0 == (forall|i: int| from <= i < u@.len() ==> #[trigger] is_digit(u@[i])),
        r.1 == count_char(u@.subrange(from as int, u@.len() as int), '.'),
{
    let n = u.unicode_len();
    let mut digits = true;
    let mut dots: usize = 0;
    let mut i: usize = from;
    while i < n
        invariant
            n == u@.len(),
            from <= i <= n,
            digits == (forall|j: int| from <= j < i ==> #[trigger] is_digit(u@[j])),
            dots == count_char(u@.subrange(from as int, i as int), '.'),
            dots <= i - from,
        decreases n - i,
    {
        let c = u.get_char(i);
        proof {
            assert(u@.subrange(from as int, i + 1).drop_last() =~= u@.subrange(from as int, i as int));
        }
        if !('0' <= c && c <= '9') {
            assert(!is_digit(u@[i as int]));
            digits = false;
        } else {
            assert(is_digit(u@[i as int]));
        }
        if c == '.' {
            dots = dots + 1;
        }
        i = i + 1;
    }
    (digits, dots)
}

/// Whether every character of `u` from position `from` on is a digit or a point.
fn digits_or_points(u: &str, from: usize) -> (r: bool)
    requires
        from <= u@.len(),
    ensures
        r == (forall|i: int| from <= i < u@.len() ==> #[trigger] is_digit(u@[i]) || u@[i] == '.'),
{
    let n = u.unicode_len();
    let mut i: usize = from;
    while i < n
        invariant
            n == u@.len(),
            from <= i <= n,
            forall|j: int| from <= j < i ==> #[trigger] is_digit(u@[j]) || u@[j] == '.',
        decreases n - i,
    {
        let c = u.get_char(i);
        if !(('0' <= c && c <= '9') || c == '.') {
            assert(!(is_digit(u@[i as int]) || u@[i as int] == '.'));
            return false;
        }
        i = i + 1;
    }
    true
}

/// The type of a literal lexeme, or `None` where it has no literal form.
pub fn classify_literal(t: &str) -> (r: Option<TypeTag>)
    ensures
        r == lexeme_type(t@),
{
    let n = t.unicode_len();
    if n >= 2 && t.get_char(0) == '\'' && t.get_char(n - 1) == '\'' {
        return Some(TypeTag::Utf8String);
    }
    let from: usize = if n > 0 && t.get_char(0) == '-' { 1 } else { 0 };
    let ghost u = unsigned_part(t@);
    proof {
        assert(u =~= t@.subrange(from as int, n as int));
    }
    let (digits, dots) = scan_number(t, from);
    if from < n && digits {
        assert forall|i: int| 0 <= i < u.len() implies #[trigger] is_digit(u[i]) by {
            assert(u[i] == t@[i + from]);
        }
        return Some(TypeTag::Integer64);
    }
    assert(!is_integer_lexeme(t@)) by {
        if u.len() > 0 && forall|i: int| 0 <= i < u.len() ==> #[trigger] is_digit(u[i]) {
            assert forall|i: int| from <= i < t@.len() implies #[trigger] is_digit(t@[i]) by {
                assert(t@[i] == u[i - from]);
            }
        }
    }
    if n >= from + 3 && dots == 1 && t.get_char(from) != '.' && t.get_char(n - 1) != '.'
        && digits_or_points(t, from) {
        proof {
            assert forall|i: int| 0 <= i < u.len() implies #[trigger] is_digit(u[i]) || u[i] == '.' by {
                assert(u[i] == t@[i + from]);
            }
            assert(u[0] == t@[from as int]);
            assert(u.last() == t@[n - 1]);
        }
        return Some(TypeTag::Float64);
    }
    assert(!is_decimal_lexeme(t@)) by {
        if is_decimal_lexeme(t@) {
            assert(u[0] == t@[from as int]);
            assert(u.last() == t@[n - 1]);
            assert forall|i: int| from <= i < t@.len() implies #[trigger] is_digit(t@[i]) || t@[i] == '.' by {
                assert(t@[i] == u[i - from]);
            }
        }
    }
    if is_word(t, "true") || is_word(t, "false") {
        Some(TypeTag::Boolean)
    } else if is_word(t, "null") {
        Some(TypeTag::Null)
    } else {
        None
    }
}

} // verus!
