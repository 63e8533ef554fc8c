//! The zero-panic policy: what a probe may not hold.
use crate::text::{text_eq, text_view, views};
use syn::visit::Visit;
use vstd::prelude::*;

verus! {

/// `syn::ExprIndex`: an index expression. Nothing is said of what it holds.
#[verifier::external_type_specification]
#[verifier::external_body]
pub struct ExExprIndex(syn::ExprIndex);

/// `syn::ExprMethodCall`: a method call. Nothing is said of what it holds.
#[verifier::external_type_specification]
#[verifier::external_body]
pub struct ExExprMethodCall(syn::ExprMethodCall);

/// `syn::Macro`: a macro invocation. Nothing is said of what it holds.
#[verifier::external_type_specification]
#[verifier::external_body]
pub struct ExMacro(syn::Macro);

/// `syn::ExprCall`: a call. Nothing is said of what it holds.
#[verifier::external_type_specification]
#[verifier::external_body]
pub struct ExExprCall(syn::ExprCall);

/// `syn::ExprBinary`: a binary operation. Nothing is said of what it holds.
#[verifier::external_type_specification]
#[verifier::external_body]
pub struct ExExprBinary(syn::ExprBinary);

/// The binary operators that the policy tells apart.
#[derive(Debug, Clone, Copy, PartialEq, Eq, Structural)]
pub enum Operator {
    Div,
    Rem,
    DivAssign,
    RemAssign,
    Other,
}

/// A construct of a probe that the policy looks at.
#[derive(Debug)]
pub enum Construct {
    /// An index expression.
    Index,
    /// A method call, with the method's name.
    MethodCall(String),
    /// A macro invocation, with the segments of the macro's path.
    MacroCall(Vec<String>),
    /// A call, with the segments of the callee's path where the callee is one.
    FunctionCall(Option<Vec<String>>),
    /// A binary operator.
    Binary(Operator),
}

/// A construct, with its names as sequences of characters.
pub enum ConstructView {
    Index,
    MethodCall(Seq<char>),
    MacroCall(Seq<Seq<char>>),
    FunctionCall(Option<Seq<Seq<char>>>),
    Binary(Operator),
}

impl View for Construct {
    type V = ConstructView;

    open spec fn view(&self) -> ConstructView {
        match self {
            Construct::Index => ConstructView::Index,
            Construct::MethodCall(name) => ConstructView::MethodCall(name@),
            Construct::MacroCall(path) => ConstructView::MacroCall(views(path@)),
            Construct::FunctionCall(Some(path)) => ConstructView::FunctionCall(Some(views(path@))),
            Construct::FunctionCall(None) => ConstructView::FunctionCall(None),
            Construct::Binary(op) => ConstructView::Binary(*op),
        }
    }
}

/// The views of `v`.
pub open spec fn construct_views(v: Seq<Construct>) -> Seq<ConstructView> {
    Seq::new(v.len(), |i: int| v[i]@)
}

/// Gathers the constructs of a tree as it is walked.
struct Collector {
    constructs: Vec<Construct>,
}

impl<'ast> Visit<'ast> for Collector {
    /// Notes an index expression; `syn::visit::visit_expr_index` goes on into its parts.
    #[verifier::external_body]
    fn visit_expr_index(&mut self, node: &'ast syn::ExprIndex) {
        self.constructs.push(Construct::Index);
        syn::visit::visit_expr_index(self, node);
    }

    /// Notes a method call; `syn::visit::visit_expr_method_call` goes on into its parts.
    #[verifier::external_body]
    fn visit_expr_method_call(&mut self, node: &'ast syn::ExprMethodCall) {
        self.constructs.push(Construct::MethodCall(node.method.to_string()));
        syn::visit::visit_expr_method_call(self, node);
    }

    /// Notes a macro invocation with its path; `syn::visit::visit_macro` goes on into its path.
    #[verifier::external_body]
    fn visit_macro(&mut self, node: &'ast syn::Macro) {
        let path = node.path.segments.iter().map(|s| s.ident.to_string()).collect();
        self.constructs.push(Construct::MacroCall(path));
        syn::visit::visit_macro(self, node);
    }

    /// Notes a call with the callee's path, where it is one; `syn::visit::visit_expr_call` goes on into its parts.
    #[verifier::external_body]
    fn visit_expr_call(&mut self, node: &'ast syn::ExprCall) {
        let path = match &*node.func {
            syn::Expr::Path(p) => {
                Some(p.path.segments.iter().map(|s| s.ident.to_string()).collect())
            },
            _ => None,
        };
        self.constructs.push(Construct::FunctionCall(path));
        syn::visit::visit_expr_call(self, node);
    }

    /// Notes a binary operator; `syn::visit::visit_expr_binary` goes on into its operands.
    #[verifier::external_body]
    fn visit_expr_binary(&mut self, node: &'ast syn::ExprBinary) {
        let op = match &node.op {
            syn::BinOp::Div(_) => Operator::Div,
            syn::BinOp::Rem(_) => Operator::Rem,
            syn::BinOp::DivAssign(_) => Operator::DivAssign,
            syn::BinOp::RemAssign(_) => Operator::RemAssign,
            _ => Operator::Other,
        };
        self.constructs.push(Construct::Binary(op));
        syn::visit::visit_expr_binary(self, node);
    }
}

/// The constructs of the Rust source `code`, each before those inside it, as `syn::parse_file`
/// and `syn::visit::Visit` find them; or the text of the parser's error.
pub uninterp spec fn constructs_of(code: Seq<char>) -> Result<Seq<ConstructView>, Seq<char>>;

/// `syn::parse_file` parses `code` and `Visit::visit_file` walks the tree: the result is a
/// function of the text alone. The text of the error is what `syn::Error` displays.
#[verifier::external_body]
pub(crate) fn collect_constructs(code: &str) -> (r: Result<Vec<Construct>, String>)
    ensures
        match r {
            Ok(v) => constructs_of(code@) == Ok::<Seq<ConstructView>, Seq<char>>(
                construct_views(v@),
            ),
            Err(e) => constructs_of(code@) == Err::<Seq<ConstructView>, Seq<char>>(e@),
        },
{
    let file = syn::parse_file(code).map_err(|e| e.to_string())?;
    let mut collector = Collector { constructs: Vec::new() };
    collector.visit_file(&file);
    Ok(collector.constructs)
}

/// The methods that panic.
pub open spec fn banned_method(name: Seq<char>) -> bool {
    name == "unwrap"@ || name == "expect"@
}

/// The macros that panic.
pub open spec fn banned_macro(name: Seq<char>) -> bool {
    ||| name == "panic"@
    ||| name == "assert"@
    ||| name == "assert_eq"@
    ||| name == "assert_ne"@
    ||| name == "todo"@
    ||| name == "unimplemented"@
    ||| name == "unreachable"@
}

/// The functions that panic or end the process.
pub open spec fn banned_function(name: Seq<char>) -> bool {
    ||| name == "unwrap"@
    ||| name == "expect"@
    ||| name == "panic_any"@
    ||| name == "abort"@
    ||| name == "exit"@
    ||| name == "unreachable_unchecked"@
}

/// What the policy says of a construct, where it forbids it. Of a path the last segment decides.
pub open spec fn violation(c: ConstructView) -> Option<Seq<char>> {
    match c {
        ConstructView::Index => Some(
            "AST Verifier: Raw array indexing '[]' is forbidden. Use '.get_safe()' to guarantee Zero-Panic bounds clamping."@,
        ),
        ConstructView::MethodCall(name) => if banned_method(name) {
            Some(
                "AST Verifier: Method '."@ + name
                    + "()' is forbidden because it can panic. Use '.unwrap_or()' instead."@,
            )
        } else {
            None
        },
        ConstructView::MacroCall(path) => if path.len() > 0 && banned_macro(path.last()) {
            Some(
                "AST Verifier: Macro '"@ + path.last()
                    + "!' is forbidden because it triggers an unconditional panic."@,
            )
        } else {
            None
        },
        ConstructView::FunctionCall(Some(path)) => if path.len() > 0 && banned_function(
            path.last(),
        ) {
            Some(
                "AST Verifier: Function call to '"@ + path.last()
                    + "' is forbidden because it can panic or kill the process."@,
            )
        } else {
            None
        },
        ConstructView::Binary(op) => if op != Operator::Other {
            Some(
                "AST Verifier: Raw division '/' and modulo '%' are forbidden because dividing by zero panics. Use SafeU64's checked_div()/checked_rem() instead."@,
            )
        } else {
            None
        },
        ConstructView::FunctionCall(None) => None,
    }
}

/// What the policy says of the constructs of a probe, in their order.
pub open spec fn violations(constructs: Seq<ConstructView>) -> Seq<Seq<char>>
    decreases constructs.len(),
{
    if constructs.len() == 0 {
        Seq::empty()
    } else {
        let before = violations(constructs.drop_last());
        match violation(constructs.last()) {
            Some(text) => before.push(text),
            None => before,
        }
    }
}

fn check_construct(c: &Construct) -> (r: Option<String>)
    ensures
        text_view(r) == violation(c@),
{
    match c {
        Construct::Index => Some(
            "AST Verifier: Raw array indexing '[]' is forbidden. Use '.get_safe()' to guarantee Zero-Panic bounds clamping.".to_owned(),
        ),
        Construct::MethodCall(name) => {
            let n = name.as_str();
            if text_eq(n, "unwrap") || text_eq(n, "expect") {
                let mut s = "AST Verifier: Method '.".to_owned();
                s.append(n);
                s.append("()' is forbidden because it can panic. Use '.unwrap_or()' instead.");
                Some(s)
            } else {
                None
            }
        },
        Construct::MacroCall(path) => {
            if path.len() == 0 {
                return None;
            }
            let n = path[path.len() - 1].as_str();
            assert(n@ == views(path@).last());
            if text_eq(n, "panic") || text_eq(n, "assert") || text_eq(n, "assert_eq") || text_eq(
                n,
                "assert_ne",
            ) || text_eq(n, "todo") || text_eq(n, "unimplemented") || text_eq(n, "unreachable") {
                let mut s = "AST Verifier: Macro '".to_owned();
                s.append(n);
                s.append("!' is forbidden because it triggers an unconditional panic.");
                Some(s)
            } else {
                None
            }
        },
        Construct::FunctionCall(Some(path)) => {
            if path.len() == 0 {
                return None;
            }
            let n = path[path.len() - 1].as_str();
            assert(n@ == views(path@).last());
            if text_eq(n, "unwrap") || text_eq(n, "expect") || text_eq(n, "panic_any") || text_eq(
                n,
                "abort",
            ) || text_eq(n, "exit") || text_eq(n, "unreachable_unchecked") {
                let mut s = "AST Verifier: Function call to '".to_owned();
                s.append(n);
                s.append("' is forbidden because it can panic or kill the process.");
                Some(s)
            } else {
                None
            }
        },
        Construct::Binary(op) => {
            if *op != Operator::Other {
                Some(
                    "AST Verifier: Raw division '/' and modulo '%' are forbidden because dividing by zero panics. Use SafeU64's checked_div()/checked_rem() instead.".to_owned(),
                )
            } else {
                None
            }
        },
        Construct::FunctionCall(None) => None,
    }
}

/// What the policy says of the constructs of a probe, in their order.
pub fn verify_constructs(constructs: &Vec<Construct>) -> (r: Vec<String>)
    ensures
        views(r@) == violations(construct_views(constructs@)),
{
    let mut errors: Vec<String> = Vec::new();
    let mut i: usize = 0;
    let ghost all = construct_views(constructs@);
    assert(views(errors@) =~= violations(all.take(0)));
    while i < constructs.len()
        invariant
            i <= constructs@.len(),
            all == construct_views(constructs@),
            views(errors@) == violations(all.take(i as int)),
        decreases constructs@.len() - i,
    {
        let ghost before = errors@;
        assert(all.take(i + 1).drop_last() =~= all.take(i as int));
        match check_construct(&constructs[i]) {
            Some(text) => {
                errors.push(text);
                assert(views(errors@) =~= views(before).push(text@));
            },
            None => {},
        }
        i += 1;
    }
    assert(all.take(all.len() as int) =~= all);
    errors
}

/// What the policy says of the probe `code`, or the text of the parser's error.
pub fn verify(code: &str) -> (r: Result<Vec<String>, String>)
    ensures
        match constructs_of(code@) {
            Ok(c) => r matches Ok(errors) && views(errors@) == violations(c),
            Err(e) => r matches Err(text) && text@ == e,
        },
{
    match collect_constructs(code) {
        Ok(constructs) => Ok(verify_constructs(&constructs)),
        Err(e) => Err(e),
    }
}

/// A probe passes exactly where the policy forbids none of its constructs.
pub proof fn clean_probes_pass(constructs: Seq<ConstructView>)
    ensures
        violations(constructs).len() == 0 <==> forall|i: int|
            0 <= i < constructs.len() ==> violation(#[trigger] constructs[i]) is None,
    decreases constructs.len(),
{
    if constructs.len() > 0 {
        let front = constructs.drop_last();
        clean_probes_pass(front);
        if violations(constructs).len() == 0 {
            assert forall|i: int| 0 <= i < constructs.len() implies violation(
                #[trigger] constructs[i],
            ) is None by {
                if i < front.len() {
                    assert(front[i] == constructs[i]);
                }
            }
        } else {
            if violation(constructs.last()) is None {
                let i = choose|i: int| 0 <= i < front.len() && !(violation(#[trigger] front[i]) is None);
                assert(constructs[i] == front[i]);
            } else {
                assert(constructs[constructs.len() - 1] == constructs.last());
            }
        }
    }
}

/// What is forbidden in a part of a probe is forbidden in the whole: the violations of two parts,
/// one after the other, are those of the first and then those of the second.
pub proof fn violations_add_up(a: Seq<ConstructView>, b: Seq<ConstructView>)
    ensures
        violations(a + b) == violations(a) + violations(b),
    decreases b.len(),
{
    if b.len() == 0 {
        assert(a + b =~= a);
        assert(violations(a) + violations(b) =~= violations(a));
    } else {
        violations_add_up(a, b.drop_last());
        assert((a + b).drop_last() =~= a + b.drop_last());
        assert((a + b).last() == b.last());
        assert(violations(a + b) =~= violations(a) + violations(b));
    }
}

/// A call is judged by the last segment of its path, however long the path is: `exit`,
/// `process::exit` and `std::process::exit` are one to the policy. It is forbidden exactly where it
/// panics or ends the process, and the name is told.
pub proof fn calls_are_judged_by_their_last_segment(path: Seq<Seq<char>>, name: Seq<char>)
    ensures
        violation(ConstructView::FunctionCall(Some(path.push(name)))) == violation(
            ConstructView::FunctionCall(Some(seq![name])),
        ),
        violation(ConstructView::FunctionCall(Some(path.push(name)))) is Some <==> {
            ||| name == "unwrap"@
            ||| name == "expect"@
            ||| name == "panic_any"@
            ||| name == "abort"@
            ||| name == "exit"@
            ||| name == "unreachable_unchecked"@
        },
        violation(ConstructView::FunctionCall(Some(path.push(name)))) matches Some(text)
            ==> text == "AST Verifier: Function call to '"@ + name
            + "' is forbidden because it can panic or kill the process."@,
        violation(ConstructView::FunctionCall(Some(Seq::empty()))) is None,
        violation(ConstructView::FunctionCall(None)) is None,
{
    assert(path.push(name).last() == name);
    assert(seq![name].last() == name);
}

/// A macro is judged by the last segment of its path, however long the path is. It is forbidden
/// exactly where it panics, and its name is told.
pub proof fn macros_are_judged_by_their_last_segment(path: Seq<Seq<char>>, name: Seq<char>)
    ensures
        violation(ConstructView::MacroCall(path.push(name))) == violation(
            ConstructView::MacroCall(seq![name]),
        ),
        violation(ConstructView::MacroCall(path.push(name))) is Some <==> {
            ||| name == "panic"@
            ||| name == "assert"@
            ||| name == "assert_eq"@
            ||| name == "assert_ne"@
            ||| name == "todo"@
            ||| name == "unimplemented"@
            ||| name == "unreachable"@
        },
        violation(ConstructView::MacroCall(path.push(name))) matches Some(text) ==> text
            == "AST Verifier: Macro '"@ + name
            + "!' is forbidden because it triggers an unconditional panic."@,
        violation(ConstructView::MacroCall(Seq::empty())) is None,
{
    assert(path.push(name).last() == name);
    assert(seq![name].last() == name);
}

/// Methods are forbidden exactly where they panic; every index is; and so is every operator that
/// divides, whether it assigns or not, and no other.
pub proof fn panicking_expressions_are_forbidden(name: Seq<char>, op: Operator)
    ensures
        violation(ConstructView::MethodCall(name)) is Some <==> name == "unwrap"@ || name
            == "expect"@,
        violation(ConstructView::MethodCall(name)) matches Some(text) ==> text
            == "AST Verifier: Method '."@ + name
            + "()' is forbidden because it can panic. Use '.unwrap_or()' instead."@,
        violation(ConstructView::Index) is Some,
        violation(ConstructView::Binary(op)) is Some <==> op is Div || op is Rem || op is DivAssign
            || op is RemAssign,
{
}

/// What the policy says of a probe it says of its constructs one by one, in their order: the
/// violations before a construct stay, and its own, where it has one, comes behind them.
pub proof fn constructs_are_judged_alone(before: Seq<ConstructView>, c: ConstructView)
    ensures
        violations(before.push(c)) == match violation(c) {
            Some(text) => violations(before) + seq![text],
            None => violations(before),
        },
        violations(seq![c]).len() == (if violation(c) is Some {
            1nat
        } else {
            0
        }),
        violations(Seq::empty()).len() == 0,
{
    assert(before.push(c).drop_last() =~= before);
    assert(seq![c].drop_last() =~= Seq::<ConstructView>::empty());
    reveal_with_fuel(violations, 2);
    if let Some(text) = violation(c) {
        assert(violations(before).push(text) =~= violations(before) + seq![text]);
    }
}

/// What is judged is what was found: every segment of every path, and every name.
pub proof fn constructs_are_seen_whole(found: Seq<Construct>, i: int)
    requires
        0 <= i < found.len(),
    ensures
        construct_views(found).len() == found.len(),
        ({
            let seen = construct_views(found)[i];
            match found[i] {
                Construct::Index => seen is Index,
                Construct::MethodCall(name) => seen == ConstructView::MethodCall(name@),
                Construct::MacroCall(path) => seen matches ConstructView::MacroCall(p) && p.len()
                    == path@.len() && forall|j: int| 0 <= j < p.len() ==> #[trigger] p[j]
                    == path@[j]@,
                Construct::FunctionCall(None) => seen == ConstructView::FunctionCall(None),
                Construct::FunctionCall(Some(path)) => seen matches ConstructView::FunctionCall(
                    Some(p),
                ) && p.len() == path@.len() && forall|j: int|
                    0 <= j < p.len() ==> #[trigger] p[j] == path@[j]@,
                Construct::Binary(op) => seen == ConstructView::Binary(op),
            }
        }),
{
}

} // verus!
