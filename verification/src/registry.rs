//! The operator and constant registry.
//!
//! A [`Parser`] owns every function descriptor and constant the compiler may
//! reference.  It is built once by [`Parser::new`] from declarative data and
//! never mutated afterwards.  The native operation of a function is a closed
//! enum ([`FunctionBox`]), so the numeric work itself can be supplied by
//! whoever drives an evaluation; a constant's value is carried as the bit
//! pattern of an IEEE-754 double and never interpreted here.

use vstd::prelude::*;
use crate::errors::{ConfigError, ConfigErrorV};
use crate::text::str_eq;

verus! {

/// A native unary operation.
#[derive(Debug, Clone, Copy, PartialEq, Eq, Structural)]
pub enum UnaryOp {
    Exp,
    Sin,
    Cos,
    Tan,
    Sqrt,
    Ln,
}

/// A native binary operation.
#[derive(Debug, Clone, Copy, PartialEq, Eq, Structural)]
pub enum BinaryOp {
    Add,
    Sub,
    Mul,
    Div,
    Pow,
    Max,
}

/// The arity and native operation of a registry function: a closed enum in
/// place of a boxed callable.
#[derive(Debug, Clone, Copy, PartialEq, Eq, Structural)]
pub enum FunctionBox {
    Unary(UnaryOp),
    Binary(BinaryOp),
}

/// A function descriptor: its name, operation, and binding strength.
#[derive(Debug, PartialEq, Eq)]
pub struct Function {
    pub name: String,
    pub func: FunctionBox,
    pub precedence: i32,
}

/// A named constant; `value` is the bit pattern of an IEEE-754 double.
#[derive(Debug, PartialEq, Eq)]
pub struct Constant {
    pub name: String,
    pub value: u64,
}

/// One declared function: a name, a type tag (`"unary"` or `"binary"`),
/// and a precedence integer.
#[derive(Debug, PartialEq, Eq)]
pub struct FunctionDecl {
    pub name: String,
    pub type_tag: String,
    pub precedence: i32,
}

/// The declared value of a constant, reduced to what the compiler reads:
/// a numeric value arrives as the bit pattern of an IEEE-754 double, and a
/// non-numeric one is recorded as such so that [`Parser::new`] can reject it.
#[derive(Debug, Clone, Copy, PartialEq, Eq, Structural)]
pub enum DeclaredValue {
    Numeric(u64),
    NotNumeric,
}

/// One declared constant.
#[derive(Debug, PartialEq, Eq)]
pub struct ConstantDecl {
    pub name: String,
    pub value: DeclaredValue,
}

/// Ghost mirror of [`Function`].
pub ghost struct FunctionV {
    pub name: Seq<char>,
    pub func: FunctionBox,
    pub precedence: int,
}

/// Ghost mirror of [`Constant`].
pub ghost struct ConstantV {
    pub name: Seq<char>,
    pub value: u64,
}

/// Ghost mirror of [`FunctionDecl`].
pub ghost struct FunctionDeclV {
    pub name: Seq<char>,
    pub type_tag: Seq<char>,
    pub precedence: int,
}

/// Ghost mirror of [`ConstantDecl`].
pub ghost struct ConstantDeclV {
    pub name: Seq<char>,
    pub value: DeclaredValue,
}

/// The abstract registry: what a [`Parser`] denotes.
pub ghost struct RegistryV {
    pub functions: Seq<FunctionV>,
    pub constants: Seq<ConstantV>,
}

impl RegistryV {
    /// Well-formedness: names are unique within each table.
    pub open spec fn wf(self) -> bool {
        &&& forall|i: int, j: int|
            0 <= i < j < self.functions.len() ==> self.functions[i].name
                != self.functions[j].name
        &&& forall|i: int, j: int|
            0 <= i < j < self.constants.len() ==> self.constants[i].name
                != self.constants[j].name
    }
}

impl View for Function {
    type V = FunctionV;

    open spec fn view(&self) -> FunctionV {
        FunctionV { name: self.name@, func: self.func, precedence: self.precedence as int }
    }
}

impl DeepView for Function {
    type V = FunctionV;

    open spec fn deep_view(&self) -> FunctionV {
        self.view()
    }
}

impl View for Constant {
    type V = ConstantV;

    open spec fn view(&self) -> ConstantV {
        ConstantV { name: self.name@, value: self.value }
    }
}

impl DeepView for Constant {
    type V = ConstantV;

    open spec fn deep_view(&self) -> ConstantV {
        self.view()
    }
}

impl View for FunctionDecl {
    type V = FunctionDeclV;

    open spec fn view(&self) -> FunctionDeclV {
        FunctionDeclV {
            name: self.name@,
            type_tag: self.type_tag@,
            precedence: self.precedence as int,
        }
    }
}

impl DeepView for FunctionDecl {
    type V = FunctionDeclV;

    open spec fn deep_view(&self) -> FunctionDeclV {
        self.view()
    }
}

impl View for ConstantDecl {
    type V = ConstantDeclV;

    open spec fn view(&self) -> ConstantDeclV {
        ConstantDeclV { name: self.name@, value: self.value }
    }
}

impl DeepView for ConstantDecl {
    type V = ConstantDeclV;

    open spec fn deep_view(&self) -> ConstantDeclV {
        self.view()
    }
}

impl Clone for Function {
    fn clone(&self) -> (r: Self)
        ensures
            r == *self,
    {
        Function { name: self.name.clone(), func: self.func, precedence: self.precedence }
    }
}

impl Clone for Constant {
    fn clone(&self) -> (r: Self)
        ensures
            r == *self,
    {
        Constant { name: self.name.clone(), value: self.value }
    }
}

/// Index of the first function with the given name, if any.
pub open spec fn spec_function_slot(fns: Seq<FunctionV>, name: Seq<char>) -> Option<int>
    decreases fns.len(),
{
    if fns.len() == 0 {
        None
    } else if fns[0].name == name {
        Some(0)
    } else {
        match spec_function_slot(fns.drop_first(), name) {
            Some(i) => Some(i + 1),
            None => None,
        }
    }
}

/// Index of the first constant with the given name, if any.
pub open spec fn spec_constant_slot(cs: Seq<ConstantV>, name: Seq<char>) -> Option<int>
    decreases cs.len(),
{
    if cs.len() == 0 {
        None
    } else if cs[0].name == name {
        Some(0)
    } else {
        match spec_constant_slot(cs.drop_first(), name) {
            Some(i) => Some(i + 1),
            None => None,
        }
    }
}

/// The first function with the given name, if any.
pub open spec fn spec_find_function(fns: Seq<FunctionV>, name: Seq<char>) -> Option<FunctionV> {
    match spec_function_slot(fns, name) {
        Some(i) => Some(fns[i]),
        None => None,
    }
}

/// The first constant with the given name, if any.
pub open spec fn spec_find_constant(cs: Seq<ConstantV>, name: Seq<char>) -> Option<ConstantV> {
    match spec_constant_slot(cs, name) {
        Some(i) => Some(cs[i]),
        None => None,
    }
}

/// What `spec_function_slot` returns is the first match.
pub proof fn lemma_function_slot(fns: Seq<FunctionV>, name: Seq<char>)
    ensures
        match spec_function_slot(fns, name) {
            Some(i) => 0 <= i < fns.len() && fns[i].name == name && forall|j: int|
                0 <= j < i ==> fns[j].name != name,
            None => forall|j: int| 0 <= j < fns.len() ==> fns[j].name != name,
        },
    decreases fns.len(),
{
    if fns.len() > 0 && fns[0].name != name {
        lemma_function_slot(fns.drop_first(), name);
        match spec_function_slot(fns.drop_first(), name) {
            Some(i) => {
                assert forall|j: int| 0 <= j < i + 1 implies fns[j].name != name by {
                    if j > 0 {
                        assert(fns.drop_first()[j - 1].name != name);
                    }
                }
            },
            None => {
                assert forall|j: int| 0 <= j < fns.len() implies fns[j].name != name by {
                    if j > 0 {
                        assert(fns.drop_first()[j - 1].name != name);
                    }
                }
            },
        }
    }
}

/// What `spec_constant_slot` returns is the first match.
pub proof fn lemma_constant_slot(cs: Seq<ConstantV>, name: Seq<char>)
    ensures
        match spec_constant_slot(cs, name) {
            Some(i) => 0 <= i < cs.len() && cs[i].name == name && forall|j: int|
                0 <= j < i ==> cs[j].name != name,
            None => forall|j: int| 0 <= j < cs.len() ==> cs[j].name != name,
        },
    decreases cs.len(),
{
    if cs.len() > 0 && cs[0].name != name {
        lemma_constant_slot(cs.drop_first(), name);
        match spec_constant_slot(cs.drop_first(), name) {
            Some(i) => {
                assert forall|j: int| 0 <= j < i + 1 implies cs[j].name != name by {
                    if j > 0 {
                        assert(cs.drop_first()[j - 1].name != name);
                    }
                }
            },
            None => {
                assert forall|j: int| 0 <= j < cs.len() implies cs[j].name != name by {
                    if j > 0 {
                        assert(cs.drop_first()[j - 1].name != name);
                    }
                }
            },
        }
    }
}

/// The native unary operation behind a name, if one exists.
pub open spec fn spec_unary_op(name: Seq<char>) -> Option<UnaryOp> {
    if name == "exp"@ {
        Some(UnaryOp::Exp)
    } else if name == "sin"@ {
        Some(UnaryOp::Sin)
    } else if name == "cos"@ {
        Some(UnaryOp::Cos)
    } else if name == "tan"@ {
        Some(UnaryOp::Tan)
    } else if name == "sqrt"@ {
        Some(UnaryOp::Sqrt)
    } else if name == "ln"@ {
        Some(UnaryOp::Ln)
    } else {
        None
    }
}

/// The native binary operation behind a name, if one exists.
pub open spec fn spec_binary_op(name: Seq<char>) -> Option<BinaryOp> {
    if name == "+"@ {
        Some(BinaryOp::Add)
    } else if name == "-"@ {
        Some(BinaryOp::Sub)
    } else if name == "*"@ {
        Some(BinaryOp::Mul)
    } else if name == "/"@ {
        Some(BinaryOp::Div)
    } else if name == "^"@ {
        Some(BinaryOp::Pow)
    } else if name == "max"@ {
        Some(BinaryOp::Max)
    } else {
        None
    }
}

/// The descriptor a declaration builds, or the configuration error it earns.
pub open spec fn spec_function_of(d: FunctionDeclV) -> Result<FunctionV, ConfigErrorV> {
    if d.type_tag == "unary"@ {
        match spec_unary_op(d.name) {
            Some(op) => Ok(
                FunctionV { name: d.name, func: FunctionBox::Unary(op), precedence: d.precedence },
            ),
            None => Err(ConfigErrorV::UnimplementedOperation(d.name)),
        }
    } else if d.type_tag == "binary"@ {
        match spec_binary_op(d.name) {
            Some(op) => Ok(
                FunctionV { name: d.name, func: FunctionBox::Binary(op), precedence: d.precedence },
            ),
            None => Err(ConfigErrorV::UnimplementedOperation(d.name)),
        }
    } else {
        Err(ConfigErrorV::UnknownType(d.type_tag))
    }
}

/// Adding a descriptor to the table: a redeclared name replaces the earlier
/// entry, any other name is appended.
pub open spec fn spec_put_function(fns: Seq<FunctionV>, f: FunctionV) -> Seq<FunctionV> {
    match spec_function_slot(fns, f.name) {
        Some(i) => fns.update(i, f),
        None => fns.push(f),
    }
}

/// Adding a constant to the table, with the same replacement rule.
pub open spec fn spec_put_constant(cs: Seq<ConstantV>, c: ConstantV) -> Seq<ConstantV> {
    match spec_constant_slot(cs, c.name) {
        Some(i) => cs.update(i, c),
        None => cs.push(c),
    }
}

/// The function table built from the declarations, processed left to right
/// on top of `acc`; the first bad declaration aborts the build.
pub open spec fn spec_build_functions(acc: Seq<FunctionV>, decls: Seq<FunctionDeclV>) -> Result<
    Seq<FunctionV>,
    ConfigErrorV,
>
    decreases decls.len(),
{
    if decls.len() == 0 {
        Ok(acc)
    } else {
        match spec_function_of(decls[0]) {
            Ok(f) => spec_build_functions(spec_put_function(acc, f), decls.drop_first()),
            Err(e) => Err(e),
        }
    }
}

/// The constant a declaration builds: a non-numeric value is rejected.
pub open spec fn spec_constant_of(d: ConstantDeclV) -> Result<ConstantV, ConfigErrorV> {
    match d.value {
        DeclaredValue::Numeric(b) => Ok(ConstantV { name: d.name, value: b }),
        DeclaredValue::NotNumeric => Err(ConfigErrorV::NotANumber(d.name)),
    }
}

/// The constant table built from the declarations.
pub open spec fn spec_build_constants(acc: Seq<ConstantV>, decls: Seq<ConstantDeclV>) -> Result<
    Seq<ConstantV>,
    ConfigErrorV,
>
    decreases decls.len(),
{
    if decls.len() == 0 {
        Ok(acc)
    } else {
        match spec_constant_of(decls[0]) {
            Ok(c) => spec_build_constants(spec_put_constant(acc, c), decls.drop_first()),
            Err(e) => Err(e),
        }
    }
}

/// The registry the two declaration lists build: functions first, then
/// constants, each from an empty table.
pub open spec fn spec_new_registry(
    functions: Seq<FunctionDeclV>,
    constants: Seq<ConstantDeclV>,
) -> Result<RegistryV, ConfigErrorV> {
    match spec_build_functions(Seq::empty(), functions) {
        Err(e) => Err(e),
        Ok(fns) => match spec_build_constants(Seq::empty(), constants) {
            Err(e) => Err(e),
            Ok(cs) => Ok(RegistryV { functions: fns, constants: cs }),
        },
    }
}

/// The registry holder and compiler entry point.  Built once, read-only
/// afterwards; every other stage consults it through the lookups below.
#[derive(Debug)]
pub struct Parser {
    functions: Vec<Function>,
    constants: Vec<Constant>,
}

impl View for Parser {
    type V = RegistryV;

    closed spec fn view(&self) -> RegistryV {
        RegistryV { functions: self.functions.deep_view(), constants: self.constants.deep_view() }
    }
}

/// The executable op table for unary names.
pub fn unary_op_of(name: &str) -> (r: Option<UnaryOp>)
    ensures
        r == spec_unary_op(name@),
{
    if str_eq(name, "exp") {
        Some(UnaryOp::Exp)
    } else if str_eq(name, "sin") {
        Some(UnaryOp::Sin)
    } else if str_eq(name, "cos") {
        Some(UnaryOp::Cos)
    } else if str_eq(name, "tan") {
        Some(UnaryOp::Tan)
    } else if str_eq(name, "sqrt") {
        Some(UnaryOp::Sqrt)
    } else if str_eq(name, "ln") {
        Some(UnaryOp::Ln)
    } else {
        None
    }
}

/// The executable op table for binary names.
pub fn binary_op_of(name: &str) -> (r: Option<BinaryOp>)
    ensures
        r == spec_binary_op(name@),
{
    if str_eq(name, "+") {
        Some(BinaryOp::Add)
    } else if str_eq(name, "-") {
        Some(BinaryOp::Sub)
    } else if str_eq(name, "*") {
        Some(BinaryOp::Mul)
    } else if str_eq(name, "/") {
        Some(BinaryOp::Div)
    } else if str_eq(name, "^") {
        Some(BinaryOp::Pow)
    } else if str_eq(name, "max") {
        Some(BinaryOp::Max)
    } else {
        None
    }
}

/// First index in `fns` holding the given name.
fn function_slot_in(fns: &Vec<Function>, name: &str) -> (r: Option<usize>)
    ensures
        match r {
            Some(i) => i < fns.len() && fns.deep_view()[i as int].name == name@
                && spec_function_slot(fns.deep_view(), name@) == Some(i as int),
            None => spec_function_slot(fns.deep_view(), name@) is None,
        },
{
    proof {
        lemma_function_slot(fns.deep_view(), name@);
    }
    let mut i: usize = 0;
    while i < fns.len()
        invariant
            i <= fns.len(),
            fns.deep_view().len() == fns.len(),
            forall|j: int| 0 <= j < i ==> fns.deep_view()[j].name != name@,
            match spec_function_slot(fns.deep_view(), name@) {
                Some(k) => 0 <= k < fns.deep_view().len() && fns.deep_view()[k].name == name@
                    && forall|j: int| 0 <= j < k ==> fns.deep_view()[j].name != name@,
                None => forall|j: int|
                    0 <= j < fns.deep_view().len() ==> fns.deep_view()[j].name != name@,
            },
        decreases fns.len() - i,
    {
        if str_eq(fns[i].name.as_str(), name) {
            proof {
                assert(fns.deep_view()[i as int] == fns@[i as int].deep_view());
            }
            return Some(i);
        }
        proof {
            assert(fns.deep_view()[i as int] == fns@[i as int].deep_view());
        }
        i = i + 1;
    }
    None
}

/// First index in `cs` holding the given name.
fn constant_slot_in(cs: &Vec<Constant>, name: &str) -> (r: Option<usize>)
    ensures
        match r {
            Some(i) => i < cs.len() && cs.deep_view()[i as int].name == name@
                && spec_constant_slot(cs.deep_view(), name@) == Some(i as int),
            None => spec_constant_slot(cs.deep_view(), name@) is None,
        },
{
    proof {
        lemma_constant_slot(cs.deep_view(), name@);
    }
    let mut i: usize = 0;
    while i < cs.len()
        invariant
            i <= cs.len(),
            cs.deep_view().len() == cs.len(),
            forall|j: int| 0 <= j < i ==> cs.deep_view()[j].name != name@,
            match spec_constant_slot(cs.deep_view(), name@) {
                Some(k) => 0 <= k < cs.deep_view().len() && cs.deep_view()[k].name == name@
                    && forall|j: int| 0 <= j < k ==> cs.deep_view()[j].name != name@,
                None => forall|j: int|
                    0 <= j < cs.deep_view().len() ==> cs.deep_view()[j].name != name@,
            },
        decreases cs.len() - i,
    {
        if str_eq(cs[i].name.as_str(), name) {
            proof {
                assert(cs.deep_view()[i as int] == cs@[i as int].deep_view());
            }
            return Some(i);
        }
        proof {
            assert(cs.deep_view()[i as int] == cs@[i as int].deep_view());
        }
        i = i + 1;
    }
    None
}

/// The descriptor a declaration builds.
fn function_of(d: &FunctionDecl) -> (r: Result<Function, ConfigError>)
    ensures
        match r {
            Ok(f) => spec_function_of(d.deep_view()) == Ok::<FunctionV, ConfigErrorV>(f@),
            Err(e) => spec_function_of(d.deep_view()) == Err::<FunctionV, ConfigErrorV>(e@),
        },
{
    if str_eq(d.type_tag.as_str(), "unary") {
        match unary_op_of(d.name.as_str()) {
            Some(op) => Ok(
                Function {
                    name: d.name.clone(),
                    func: FunctionBox::Unary(op),
                    precedence: d.precedence,
                },
            ),
            None => Err(ConfigError::UnimplementedOperation(d.name.clone())),
        }
    } else if str_eq(d.type_tag.as_str(), "binary") {
        match binary_op_of(d.name.as_str()) {
            Some(op) => Ok(
                Function {
                    name: d.name.clone(),
                    func: FunctionBox::Binary(op),
                    precedence: d.precedence,
                },
            ),
            None => Err(ConfigError::UnimplementedOperation(d.name.clone())),
        }
    } else {
        Err(ConfigError::UnknownType(d.type_tag.clone()))
    }
}

/// The constant a declaration builds.
fn constant_of(d: &ConstantDecl) -> (r: Result<Constant, ConfigError>)
    ensures
        match r {
            Ok(c) => spec_constant_of(d.deep_view()) == Ok::<ConstantV, ConfigErrorV>(c@),
            Err(e) => spec_constant_of(d.deep_view()) == Err::<ConstantV, ConfigErrorV>(e@),
        },
{
    match d.value {
        DeclaredValue::Numeric(b) => Ok(Constant { name: d.name.clone(), value: b }),
        DeclaredValue::NotNumeric => Err(ConfigError::NotANumber(d.name.clone())),
    }
}

impl Parser {
    /// Builds the registry from declarative data.
    ///
    /// Functions are checked first, then constants; the first bad
    /// declaration is reported.  A redeclared name replaces the earlier
    /// entry, so the registry always holds unique names.
    pub fn new(functions: Vec<FunctionDecl>, constants: Vec<ConstantDecl>) -> (r: Result<
        Parser,
        ConfigError,
    >)
        ensures
            match r {
                Ok(p) => spec_new_registry(functions.deep_view(), constants.deep_view())
                    == Ok::<RegistryV, ConfigErrorV>(p@) && p@.wf(),
                Err(e) => spec_new_registry(functions.deep_view(), constants.deep_view())
                    == Err::<RegistryV, ConfigErrorV>(e@),
            },
    {
        let mut fns: Vec<Function> = Vec::new();
        let mut i: usize = 0;
        proof {
            assert(functions.deep_view().skip(0) =~= functions.deep_view());
            assert(fns.deep_view() =~= Seq::<FunctionV>::empty());
        }
        while i < functions.len()
            invariant
                i <= functions.len(),
                functions.deep_view().len() == functions.len(),
                spec_build_functions(fns.deep_view(), functions.deep_view().skip(i as int))
                    == spec_build_functions(Seq::empty(), functions.deep_view()),
                forall|p: int, q: int|
                    0 <= p < q < fns.deep_view().len() ==> fns.deep_view()[p].name
                        != fns.deep_view()[q].name,
            decreases functions.len() - i,
        {
            let ghost pre = fns.deep_view();
            let ghost rest = functions.deep_view().skip(i as int);
            proof {
                assert(rest.len() > 0);
                assert(rest[0] == functions.deep_view()[i as int]);
                assert(functions.deep_view()[i as int] == functions@[i as int].deep_view());
                assert(rest.drop_first() =~= functions.deep_view().skip(i as int + 1));
            }
            match function_of(&functions[i]) {
                Err(e) => {
                    proof {
                        assert(spec_build_functions(pre, rest) == Err::<Seq<FunctionV>,
                            ConfigErrorV>(e@));
                    }
                    return Err(e);
                },
                Ok(f) => {
                    let ghost fv = f@;
                    put_function(&mut fns, f);
                    proof {
                        assert(fns.deep_view() == spec_put_function(pre, fv));
                        assert(spec_build_functions(pre, rest) == spec_build_functions(
                            spec_put_function(pre, fv),
                            rest.drop_first(),
                        ));
                    }
                },
            }
            i = i + 1;
        }
        proof {
            assert(functions.deep_view().skip(i as int) =~= Seq::<FunctionDeclV>::empty());
        }
        let ghost fns_table = fns.deep_view();
        proof {
            assert(spec_build_functions(Seq::empty(), functions.deep_view()) == Ok::<Seq<FunctionV>,
                ConfigErrorV>(fns_table));
        }
        let mut cs: Vec<Constant> = Vec::new();
        let mut k: usize = 0;
        proof {
            assert(constants.deep_view().skip(0) =~= constants.deep_view());
            assert(cs.deep_view() =~= Seq::<ConstantV>::empty());
        }
        while k < constants.len()
            invariant
                k <= constants.len(),
                constants.deep_view().len() == constants.len(),
                fns.deep_view() == fns_table,
                spec_build_functions(Seq::empty(), functions.deep_view()) == Ok::<Seq<FunctionV>,
                    ConfigErrorV>(fns_table),
                forall|p: int, q: int|
                    0 <= p < q < fns_table.len() ==> fns_table[p].name != fns_table[q].name,
                spec_build_constants(cs.deep_view(), constants.deep_view().skip(k as int))
                    == spec_build_constants(Seq::empty(), constants.deep_view()),
                forall|p: int, q: int|
                    0 <= p < q < cs.deep_view().len() ==> cs.deep_view()[p].name
                        != cs.deep_view()[q].name,
            decreases constants.len() - k,
        {
            let ghost pre = cs.deep_view();
            let ghost rest = constants.deep_view().skip(k as int);
            proof {
                assert(rest.len() > 0);
                assert(rest[0] == constants.deep_view()[k as int]);
                assert(constants.deep_view()[k as int] == constants@[k as int].deep_view());
                assert(rest.drop_first() =~= constants.deep_view().skip(k as int + 1));
            }
            match constant_of(&constants[k]) {
                Err(e) => {
                    proof {
                        assert(spec_build_constants(pre, rest) == Err::<Seq<ConstantV>,
                            ConfigErrorV>(e@));
                    }
                    return Err(e);
                },
                Ok(c) => {
                    let ghost cv = c@;
                    put_constant(&mut cs, c);
                    proof {
                        assert(cs.deep_view() == spec_put_constant(pre, cv));
                        assert(spec_build_constants(pre, rest) == spec_build_constants(
                            spec_put_constant(pre, cv),
                            rest.drop_first(),
                        ));
                    }
                },
            }
            k = k + 1;
        }
        proof {
            assert(constants.deep_view().skip(k as int) =~= Seq::<ConstantDeclV>::empty());
        }
        Ok(Parser { functions: fns, constants: cs })
    }

    /// The first function with the given name, as a copy.
    pub fn find_function(&self, name: &str) -> (r: Option<Function>)
        ensures
            match r {
                Some(f) => spec_find_function(self@.functions, name@) == Some(f@),
                None => spec_find_function(self@.functions, name@) is None,
            },
    {
        match function_slot_in(&self.functions, name) {
            Some(i) => {
                proof {
                    assert(self.functions.deep_view()[i as int] == self.functions@[
                        i as int].deep_view());
                }
                Some(self.functions[i].clone())
            },
            None => None,
        }
    }

    /// The value of the first constant with the given name.
    pub fn find_constant(&self, name: &str) -> (r: Option<u64>)
        ensures
            match r {
                Some(b) => spec_find_constant(self@.constants, name@) matches Some(c) && c.value
                    == b,
                None => spec_find_constant(self@.constants, name@) is None,
            },
    {
        match constant_slot_in(&self.constants, name) {
            Some(i) => {
                proof {
                    assert(self.constants.deep_view()[i as int] == self.constants@[
                        i as int].deep_view());
                }
                Some(self.constants[i].value)
            },
            None => None,
        }
    }

    /// Whether a constant of this name is registered.
    pub fn is_constant(&self, name: &str) -> (r: bool)
        ensures
            r == (spec_find_constant(self@.constants, name@) is Some),
    {
        match constant_slot_in(&self.constants, name) {
            Some(_) => true,
            None => false,
        }
    }

    /// Whether a function of this name is registered.
    pub fn is_function(&self, name: &str) -> (r: bool)
        ensures
            r == (spec_find_function(self@.functions, name@) is Some),
    {
        match function_slot_in(&self.functions, name) {
            Some(_) => true,
            None => false,
        }
    }
}

/// Replace-or-append for the function table.
fn put_function(fns: &mut Vec<Function>, f: Function)
    requires
        forall|p: int, q: int|
            0 <= p < q < old(fns).deep_view().len() ==> old(fns).deep_view()[p].name != old(
                fns,
            ).deep_view()[q].name,
    ensures
        final(fns).deep_view() == spec_put_function(old(fns).deep_view(), f@),
        forall|p: int, q: int|
            0 <= p < q < final(fns).deep_view().len() ==> final(fns).deep_view()[p].name
                != final(fns).deep_view()[q].name,
{
    proof {
        lemma_function_slot(fns.deep_view(), f@.name);
    }
    match function_slot_in(fns, f.name.as_str()) {
        Some(i) => {
            fns.remove(i);
            fns.insert(i, f);
            proof {
                assert(fns.deep_view() =~= spec_put_function(old(fns).deep_view(), f@));
            }
        },
        None => {
            fns.push(f);
            proof {
                assert(fns.deep_view() =~= spec_put_function(old(fns).deep_view(), f@));
            }
        },
    }
}

/// Replace-or-append for the constant table.
fn put_constant(cs: &mut Vec<Constant>, c: Constant)
    requires
        forall|p: int, q: int|
            0 <= p < q < old(cs).deep_view().len() ==> old(cs).deep_view()[p].name != old(
                cs,
            ).deep_view()[q].name,
    ensures
        final(cs).deep_view() == spec_put_constant(old(cs).deep_view(), c@),
        forall|p: int, q: int|
            0 <= p < q < final(cs).deep_view().len() ==> final(cs).deep_view()[p].name
                != final(cs).deep_view()[q].name,
{
    proof {
        lemma_constant_slot(cs.deep_view(), c@.name);
    }
    match constant_slot_in(cs, c.name.as_str()) {
        Some(i) => {
            cs.remove(i);
            cs.insert(i, c);
            proof {
                assert(cs.deep_view() =~= spec_put_constant(old(cs).deep_view(), c@));
            }
        },
        None => {
            cs.push(c);
            proof {
                assert(cs.deep_view() =~= spec_put_constant(old(cs).deep_view(), c@));
            }
        },
    }
}

} // verus!
