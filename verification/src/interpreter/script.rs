use crate::bin_operator::BinOperator;
use crate::errors::error::Error;
use crate::function::param::{param_views, Param, ParamView, Params};
use crate::interpreter::reader::ParseTree;
use crate::variable::type_parse::{
    chars_of, end_of_word, is_letter, is_space, p_type, read_type, word_end, word_is,
};
use crate::text::{decimal, digit};
use crate::variable::var_type::TypeView;
use vstd::prelude::*;

verus! {

/// Model of a [`ParseTree`].
pub enum TreeView {
    Int(i64),
    Bool(bool),
    Float(u64),
    Text(Seq<char>),
    Ident(Seq<char>),
    Array(Seq<TreeView>),
    ArrayRepeat(Box<TreeView>, Box<TreeView>),
    Assignment(Seq<char>, Box<TreeView>),
    Call(Seq<char>, Seq<TreeView>),
    Function(Seq<ParamView>, TypeView, Seq<TreeView>),
    Infix(Box<TreeView>, BinOperator, Box<TreeView>),
    Loop(Seq<TreeView>),
    If(Box<TreeView>, Seq<TreeView>, Seq<TreeView>),
    Break,
    Continue,
}

impl ParseTree {
    pub open spec fn view(&self) -> TreeView
        decreases self,
    {
        match self {
            ParseTree::Int(i) => TreeView::Int(*i),
            ParseTree::Bool(b) => TreeView::Bool(*b),
            ParseTree::Float(f) => TreeView::Float(*f),
            ParseTree::Text(s) => TreeView::Text(s@),
            ParseTree::Ident(s) => TreeView::Ident(s@),
            ParseTree::Array(xs) => TreeView::Array(tree_views(xs@)),
            ParseTree::ArrayRepeat(v, n) => TreeView::ArrayRepeat(
                Box::new((**v).view()),
                Box::new((**n).view()),
            ),
            ParseTree::Assignment(n, x) => TreeView::Assignment(n@, Box::new((**x).view())),
            ParseTree::Call(n, xs) => TreeView::Call(n@, tree_views(xs@)),
            ParseTree::Function(ps, t, body) => TreeView::Function(
                param_views(ps@),
                t@,
                tree_views(body@),
            ),
            ParseTree::Infix(l, op, r) => TreeView::Infix(
                Box::new((**l).view()),
                *op,
                Box::new((**r).view()),
            ),
            ParseTree::Loop(body) => TreeView::Loop(tree_views(body@)),
            ParseTree::If(c, a, e) => TreeView::If(
                Box::new((**c).view()),
                tree_views(a@),
                tree_views(e@),
            ),
            ParseTree::Break => TreeView::Break,
            ParseTree::Continue => TreeView::Continue,
        }
    }
}

pub open spec fn tree_views(s: Seq<ParseTree>) -> Seq<TreeView>
    decreases s,
{
    if s.len() == 0 {
        Seq::empty()
    } else {
        tree_views(s.subrange(0, s.len() - 1)).push(s[s.len() - 1].view())
    }
}

pub proof fn lemma_tree_views(s: Seq<ParseTree>)
    ensures
        tree_views(s).len() == s.len(),
        forall|i: int| 0 <= i < s.len() ==> #[trigger] tree_views(s)[i] == s[i]@,
    decreases s.len(),
{
    if s.len() > 0 {
        lemma_tree_views(s.subrange(0, s.len() - 1));
    }
}

pub proof fn lemma_tree_views_push(s: Seq<ParseTree>, x: ParseTree)
    ensures
        tree_views(s.push(x)) == tree_views(s).push(x@),
{
    assert(s.push(x).subrange(0, s.len() as int) =~= s);
}

pub open spec fn is_digit(c: char) -> bool {
    '0' <= c && c <= '9'
}

/// The first position from `i` on that does not hold a digit.
pub open spec fn digits_end(s: Seq<char>, i: int) -> int
    decreases s.len() - i,
{
    if 0 <= i < s.len() && is_digit(s[i]) {
        digits_end(s, i + 1)
    } else {
        i
    }
}

/// The number written in decimal by the digits from `i` up to `e`.
pub open spec fn digits_value(s: Seq<char>, i: int, e: int) -> int
    decreases e - i,
{
    if e <= i {
        0
    } else {
        digits_value(s, i, e - 1) * 10 + (s[e - 1] as int - '0' as int)
    }
}

/// The position of the quote that closes a string whose text begins at `i`;
/// a backslash takes the next character with it.
pub open spec fn text_end(s: Seq<char>, i: int) -> Option<int>
    decreases s.len() - i,
{
    if i < 0 || i >= s.len() {
        None
    } else if s[i] == '"' {
        Some(i)
    } else if s[i] == '\\' {
        if i + 2 <= s.len() {
            text_end(s, i + 2)
        } else {
            None
        }
    } else {
        text_end(s, i + 1)
    }
}

/// The first position from `i` on that holds neither white space nor `;`.
pub open spec fn skip_sep(s: Seq<char>, i: int) -> int
    decreases s.len() - i,
{
    if 0 <= i < s.len() && (is_space(s[i]) || s[i] == ';') {
        skip_sep(s, i + 1)
    } else {
        let g = skip_gap(s, i);
        if i < g <= s.len() {
            skip_sep(s, g)
        } else {
            i
        }
    }
}

/// The first position from `i` on that holds a line break, or the end.
pub open spec fn line_end(s: Seq<char>, i: int) -> int
    decreases s.len() - i,
{
    if 0 <= i < s.len() && s[i] != '\n' {
        line_end(s, i + 1)
    } else {
        i
    }
}

/// The position after the first `*/` from `i` on.
pub open spec fn block_end(s: Seq<char>, i: int) -> Option<int>
    decreases s.len() - i,
{
    if i < 0 || i + 1 >= s.len() {
        None
    } else if s[i] == '*' && s[i + 1] == '/' {
        Some(i + 2)
    } else {
        block_end(s, i + 1)
    }
}

proof fn lemma_block_end(s: Seq<char>, i: int)
    ensures
        block_end(s, i) matches Some(e) ==> i + 2 <= e <= s.len(),
    decreases s.len() - i,
{
    if !(i < 0 || i + 1 >= s.len()) && !(s[i] == '*' && s[i + 1] == '/') {
        lemma_block_end(s, i + 1);
    }
}

/// The first position from `i` on that is neither white space nor in a
/// comment: `//` to the end of the line, or `/*` to the next `*/`.
pub open spec fn skip_gap(s: Seq<char>, i: int) -> int
    decreases s.len() - i,
{
    if 0 <= i < s.len() && is_space(s[i]) {
        skip_gap(s, i + 1)
    } else if at_char(s, i, '/') && at_char(s, i + 1, '/') {
        let e = line_end(s, i + 2);
        if i < e <= s.len() {
            skip_gap(s, e)
        } else {
            i
        }
    } else if at_char(s, i, '/') && at_char(s, i + 1, '*') {
        match block_end(s, i + 2) {
            Some(e) => if i < e <= s.len() {
                skip_gap(s, e)
            } else {
                i
            },
            None => i,
        }
    } else {
        i
    }
}

/// `s` holds the character `c` at position `k`.
pub open spec fn at_char(s: Seq<char>, k: int, c: char) -> bool {
    0 <= k < s.len() && s[k] == c
}

/// The operator of precedence `level` written at position `k`, with its
/// length. From the loosest: `||`; `&&`; `==`, `!=`, `<`, `<=`, `>`, `>=`;
/// `|`; `^`; `&`; `<<`, `>>`; `+`, `-`; `*`, `/`, `%`; `**`; `?` (filter)
/// and `@` (map).
pub open spec fn op_at(s: Seq<char>, k: int, level: int) -> Option<(BinOperator, int)> {
    if level == 1 && at_char(s, k, '|') && at_char(s, k + 1, '|') {
        Some((BinOperator::Or, 2))
    } else if level == 2 && at_char(s, k, '&') && at_char(s, k + 1, '&') {
        Some((BinOperator::And, 2))
    } else if level == 3 && at_char(s, k, '=') && at_char(s, k + 1, '=') {
        Some((BinOperator::Equal, 2))
    } else if level == 3 && at_char(s, k, '!') && at_char(s, k + 1, '=') {
        Some((BinOperator::NotEqual, 2))
    } else if level == 3 && at_char(s, k, '<') && at_char(s, k + 1, '=') {
        Some((BinOperator::LowerOrEqual, 2))
    } else if level == 3 && at_char(s, k, '<') && !at_char(s, k + 1, '<') {
        Some((BinOperator::Lower, 1))
    } else if level == 3 && at_char(s, k, '>') && at_char(s, k + 1, '=') {
        Some((BinOperator::GreaterOrEqual, 2))
    } else if level == 3 && at_char(s, k, '>') && !at_char(s, k + 1, '>') {
        Some((BinOperator::Greater, 1))
    } else if level == 4 && at_char(s, k, '|') && !at_char(s, k + 1, '|') {
        Some((BinOperator::BitwiseOr, 1))
    } else if level == 5 && at_char(s, k, '^') {
        Some((BinOperator::Xor, 1))
    } else if level == 6 && at_char(s, k, '&') && !at_char(s, k + 1, '&') {
        Some((BinOperator::BitwiseAnd, 1))
    } else if level == 7 && at_char(s, k, '<') && at_char(s, k + 1, '<') {
        Some((BinOperator::LShift, 2))
    } else if level == 7 && at_char(s, k, '>') && at_char(s, k + 1, '>') {
        Some((BinOperator::RShift, 2))
    } else if level == 8 && at_char(s, k, '+') {
        Some((BinOperator::Add, 1))
    } else if level == 8 && at_char(s, k, '-') && !at_char(s, k + 1, '>') {
        Some((BinOperator::Subtract, 1))
    } else if level == 9 && at_char(s, k, '*') && !at_char(s, k + 1, '*') {
        Some((BinOperator::Multiply, 1))
    } else if level == 9 && at_char(s, k, '/') {
        Some((BinOperator::Divide, 1))
    } else if level == 9 && at_char(s, k, '%') {
        Some((BinOperator::Modulo, 1))
    } else if level == 10 && at_char(s, k, '*') && at_char(s, k + 1, '*') {
        Some((BinOperator::Pow, 2))
    } else if level == 11 && at_char(s, k, '?') {
        Some((BinOperator::Filter, 1))
    } else if level == 11 && at_char(s, k, '@') {
        Some((BinOperator::MapOp, 1))
    } else {
        None
    }
}

pub open spec fn loop_word() -> Seq<char> {
    seq!['l', 'o', 'o', 'p']
}

pub open spec fn if_word() -> Seq<char> {
    seq!['i', 'f']
}

pub open spec fn else_word() -> Seq<char> {
    seq!['e', 'l', 's', 'e']
}

/// After the first block of an `if`, ending at `n`: the `else` block when
/// one follows, and where the `if` ends.
pub open spec fn p_else(s: Seq<char>, n: int) -> Option<(Seq<TreeView>, int)>
    decreases s.len() - n, 1int, 0int,
{
    let k = skip_gap(s, n);
    let f = word_end(s, k);
    if n <= k <= f && s.subrange(k, f) == else_word() {
        let b = skip_gap(s, f);
        if at_char(s, b, '{') && n < b + 1 {
            p_block(s, b + 1, Seq::empty(), false)
        } else {
            None
        }
    } else {
        Some((Seq::empty(), n))
    }
}

pub open spec fn true_word() -> Seq<char> {
    seq!['t', 'r', 'u', 'e']
}

pub open spec fn false_word() -> Seq<char> {
    seq!['f', 'a', 'l', 's', 'e']
}

pub open spec fn break_word() -> Seq<char> {
    seq!['b', 'r', 'e', 'a', 'k']
}

pub open spec fn continue_word() -> Seq<char> {
    seq!['c', 'o', 'n', 't', 'i', 'n', 'u', 'e']
}

/// An expression read from position `i` (white space first allowed): an
/// assignment `name = expr`, or operands joined by operators.
pub open spec fn p_expr(s: Seq<char>, i: int) -> Option<(TreeView, int)>
    decreases s.len() - i, 30int, 0int,
{
    let j = skip_gap(s, i);
    if i <= j < s.len() && is_letter(s[j]) {
        let e = word_end(s, j);
        let k = skip_gap(s, e);
        if j < e && at_char(s, k, '=') && !at_char(s, k + 1, '=') && i < k + 1 {
            match p_expr(s, k + 1) {
                Some((x, m)) => Some((TreeView::Assignment(s.subrange(j, e), Box::new(x)), m)),
                None => None,
            }
        } else {
            p_bin(s, i, 1)
        }
    } else {
        p_bin(s, i, 1)
    }
}

/// Operands of precedence `level` and above joined by operators of `level`,
/// from the left.
pub open spec fn p_bin(s: Seq<char>, i: int, level: int) -> Option<(TreeView, int)>
    decreases s.len() - i, 20 - level, 0int,
{
    if level < 1 || level > 12 {
        None
    } else if level == 12 {
        p_postfix(s, i)
    } else {
        match p_bin(s, i, level + 1) {
            Some((x, j)) => if i < j <= s.len() {
                p_bin_rest(s, j, x, level)
            } else {
                None
            },
            None => None,
        }
    }
}

pub open spec fn p_bin_rest(s: Seq<char>, j: int, acc: TreeView, level: int) -> Option<(TreeView, int)>
    decreases s.len() - j, 0int, 0int,
{
    let k = skip_gap(s, j);
    match op_at(s, k, level) {
        Some((op, n)) => if j < k + n && 1 <= level < 12 {
            match p_bin(s, k + n, level + 1) {
                Some((y, m)) => if j < m <= s.len() {
                    p_bin_rest(s, m, TreeView::Infix(Box::new(acc), op, Box::new(y)), level)
                } else {
                    None
                },
                None => None,
            }
        } else {
            None
        },
        None => Some((acc, j)),
    }
}

/// An operand followed by any number of indices `[expr]`.
pub open spec fn p_postfix(s: Seq<char>, i: int) -> Option<(TreeView, int)>
    decreases s.len() - i, 3int, 0int,
{
    let k = skip_gap(s, i);
    if i <= k <= s.len() {
        match p_operand(s, k) {
            Some((x, j)) => if i < j <= s.len() {
                p_index(s, j, x)
            } else {
                None
            },
            None => None,
        }
    } else {
        None
    }
}

pub open spec fn p_index(s: Seq<char>, j: int, acc: TreeView) -> Option<(TreeView, int)>
    decreases s.len() - j, 1int, 0int,
{
    let k = skip_gap(s, j);
    if at_char(s, k, '[') && j <= k {
        match p_expr(s, k + 1) {
            Some((x, m)) => {
                let m2 = skip_gap(s, m);
                if at_char(s, m2, ']') && j < m2 + 1 {
                    p_index(s, m2 + 1, TreeView::Infix(Box::new(acc), BinOperator::At, Box::new(x)))
                } else {
                    None
                }
            },
            None => None,
        }
    } else {
        Some((acc, j))
    }
}

/// Expressions separated by `,` and closed by `close`, read from `i`, after
/// the expressions `acc`.
pub open spec fn p_list(s: Seq<char>, i: int, acc: Seq<TreeView>, close: char) -> Option<(Seq<TreeView>, int)>
    decreases s.len() - i, 40int, 0int,
{
    let k = skip_gap(s, i);
    if acc.len() == 0 && at_char(s, k, close) && i <= k {
        Some((acc, k + 1))
    } else {
        match p_expr(s, i) {
            Some((x, m)) => {
                let m2 = skip_gap(s, m);
                if at_char(s, m2, close) {
                    Some((acc.push(x), m2 + 1))
                } else if at_char(s, m2, ',') && i < m2 + 1 {
                    p_list(s, m2 + 1, acc.push(x), close)
                } else {
                    None
                }
            },
            None => None,
        }
    }
}

/// An array literal after its `[`, at `i`: `]`, or the elements separated
/// by `,` and closed by `]`, or `value; len]`.
pub open spec fn p_array(s: Seq<char>, i: int) -> Option<(TreeView, int)>
    decreases s.len() - i, 40int, 1int,
{
    let k = skip_gap(s, i);
    if at_char(s, k, ']') && i <= k {
        Some((TreeView::Array(Seq::empty()), k + 1))
    } else {
        match p_expr(s, i) {
            Some((x, m)) => {
                let m2 = skip_gap(s, m);
                if at_char(s, m2, ';') && i < m2 + 1 {
                    match p_expr(s, m2 + 1) {
                        Some((n, b)) => {
                            let c = skip_gap(s, b);
                            if at_char(s, c, ']') {
                                Some((TreeView::ArrayRepeat(Box::new(x), Box::new(n)), c + 1))
                            } else {
                                None
                            }
                        },
                        None => None,
                    }
                } else if at_char(s, m2, ']') {
                    Some((TreeView::Array(seq![x]), m2 + 1))
                } else if at_char(s, m2, ',') && i < m2 + 1 {
                    match p_list(s, m2 + 1, seq![x], ']') {
                        Some((xs, e)) => Some((TreeView::Array(xs), e)),
                        None => None,
                    }
                } else {
                    None
                }
            },
            None => None,
        }
    }
}

/// Statements, separated by white space or `;`, read from `i` after the
/// statements `acc`, up to `}` (or, for a whole script, to the end).
pub open spec fn p_block(s: Seq<char>, i: int, acc: Seq<TreeView>, whole: bool) -> Option<(Seq<TreeView>, int)>
    decreases s.len() - i, 40int, 0int,
{
    let k = skip_sep(s, i);
    if i <= k && whole && k >= s.len() {
        Some((acc, k))
    } else if i <= k && !whole && at_char(s, k, '}') {
        Some((acc, k + 1))
    } else if i <= k < s.len() {
        match p_expr(s, k) {
            Some((x, m)) => if i < m <= s.len() && k < m {
                p_block(s, m, acc.push(x), whole)
            } else {
                None
            },
            None => None,
        }
    } else {
        None
    }
}

/// Parameters `name: type`, separated by `,` and closed by `)`, read from
/// `i` after the parameters `acc`.
pub open spec fn p_params(s: Seq<char>, i: int, acc: Seq<ParamView>) -> Option<(Seq<ParamView>, int)>
    decreases s.len() - i,
{
    let j = skip_gap(s, i);
    if acc.len() == 0 && at_char(s, j, ')') && i <= j {
        Some((acc, j + 1))
    } else if i <= j < s.len() && is_letter(s[j]) {
        let e = word_end(s, j);
        let c = skip_gap(s, e);
        if at_char(s, c, ':') && j < c + 1 {
            match p_type(s, c + 1) {
                Some((t, m)) => {
                    let m2 = skip_gap(s, m);
                    let p = ParamView { name: s.subrange(j, e), var_type: t };
                    if at_char(s, m2, ')') {
                        Some((acc.push(p), m2 + 1))
                    } else if at_char(s, m2, ',') && i < m2 + 1 {
                        p_params(s, m2 + 1, acc.push(p))
                    } else {
                        None
                    }
                },
                None => None,
            }
        } else {
            None
        }
    } else {
        None
    }
}

/// One operand read from position `i`: a decimal integer, a string literal,
/// an array `[e1, e2]`, a function `(p: t, ...) -> type { body }`, an
/// expression in parentheses, `loop { body }`, `break`, `continue`, a call
/// `name(args)` or a variable.
pub open spec fn p_operand(s: Seq<char>, i: int) -> Option<(TreeView, int)>
    decreases s.len() - i, 2int, 0int,
{
    if i < 0 || i >= s.len() {
        None
    } else if is_digit(s[i]) {
        let e = digits_end(s, i);
        let v = digits_value(s, i, e);
        if v <= i64::MAX && !(e < s.len() && is_letter(s[e])) {
            Some((TreeView::Int(v as i64), e))
        } else {
            None
        }
    } else if s[i] == '"' {
        match text_end(s, i + 1) {
            Some(e) => Some((TreeView::Text(s.subrange(i + 1, e)), e + 1)),
            None => None,
        }
    } else if s[i] == '[' {
        p_array(s, i + 1)
    } else if s[i] == '(' {
        match p_params(s, i + 1, Seq::empty()) {
            Some((ps, k)) => {
                let a = skip_gap(s, k);
                if at_char(s, a, '-') && at_char(s, a + 1, '>') {
                    match p_type(s, a + 2) {
                        Some((t, m)) => {
                            let b = skip_gap(s, m);
                            if at_char(s, b, '{') && i < b + 1 {
                                match p_block(s, b + 1, Seq::empty(), false) {
                                    Some((body, n)) => Some((TreeView::Function(ps, t, body), n)),
                                    None => None,
                                }
                            } else {
                                None
                            }
                        },
                        None => None,
                    }
                } else {
                    None
                }
            },
            None => match p_expr(s, i + 1) {
                Some((x, m)) => {
                    let m2 = skip_gap(s, m);
                    if at_char(s, m2, ')') {
                        Some((x, m2 + 1))
                    } else {
                        None
                    }
                },
                None => None,
            },
        }
    } else if is_letter(s[i]) {
        let e = word_end(s, i);
        let w = s.subrange(i, e);
        if w == loop_word() {
            let b = skip_gap(s, e);
            if at_char(s, b, '{') && i < b + 1 {
                match p_block(s, b + 1, Seq::empty(), false) {
                    Some((body, n)) => Some((TreeView::Loop(body), n)),
                    None => None,
                }
            } else {
                None
            }
        } else if w == break_word() {
            Some((TreeView::Break, e))
        } else if w == continue_word() {
            Some((TreeView::Continue, e))
        } else if w == if_word() && i < e <= s.len() {
            match p_expr(s, e) {
                Some((c, k)) => {
                    let b = skip_gap(s, k);
                    if at_char(s, b, '{') && i < b + 1 {
                        match p_block(s, b + 1, Seq::empty(), false) {
                            Some((a, n)) => if i < n <= s.len() {
                                match p_else(s, n) {
                                    Some((els, m)) => Some((TreeView::If(Box::new(c), a, els), m)),
                                    None => None,
                                }
                            } else {
                                None
                            },
                            None => None,
                        }
                    } else {
                        None
                    }
                },
                None => None,
            }
        } else if w == true_word() {
            Some((TreeView::Bool(true), e))
        } else if w == false_word() {
            Some((TreeView::Bool(false), e))
        } else {
            let k = skip_gap(s, e);
            if at_char(s, k, '(') && i < k + 1 {
                match p_list(s, k + 1, Seq::empty(), ')') {
                    Some((xs, m)) => Some((TreeView::Call(w, xs), m)),
                    None => None,
                }
            } else {
                Some((TreeView::Ident(w), e))
            }
        }
    } else {
        None
    }
}

/// The statements of the script `s`; `None` when `s` is not a script.
pub open spec fn parse_script_spec(s: Seq<char>) -> Option<Seq<TreeView>> {
    match p_block(s, 0, Seq::empty(), true) {
        Some((ts, _)) => Some(ts),
        None => None,
    }
}

pub open spec fn tparsed(r: Option<(ParseTree, usize)>) -> Option<(TreeView, int)> {
    match r {
        Some((t, j)) => Some((t@, j as int)),
        None => None,
    }
}

pub open spec fn lparsed(r: Option<(Vec<ParseTree>, usize)>) -> Option<(Seq<TreeView>, int)> {
    match r {
        Some((ts, j)) => Some((tree_views(ts@), j as int)),
        None => None,
    }
}

pub open spec fn pparsed(r: Option<(Vec<Param>, usize)>) -> Option<(Seq<ParamView>, int)> {
    match r {
        Some((ps, j)) => Some((param_views(ps@), j as int)),
        None => None,
    }
}

fn skip_separators(s: &Vec<char>, i: usize) -> (r: usize)
    requires
        i <= s.len(),
    ensures
        r == skip_sep(s@, i as int),
        i <= r <= s.len(),
{
    let mut j = i;
    while j < s.len()
        invariant
            i <= j <= s.len(),
            skip_sep(s@, j as int) == skip_sep(s@, i as int),
        decreases s.len() - j,
    {
        let c = s[j];
        if c == ' ' || c == '\t' || c == '\n' || c == '\r' || c == ';' {
            j += 1;
        } else {
            let g = skip_gap_exec(s, j);
            if g == j {
                return j;
            }
            j = g;
        }
    }
    j
}

fn line_end_exec(s: &Vec<char>, i: usize) -> (r: usize)
    requires
        i <= s.len(),
    ensures
        r == line_end(s@, i as int),
        i <= r <= s.len(),
{
    let mut j = i;
    while j < s.len() && s[j] != '\n'
        invariant
            i <= j <= s.len(),
            line_end(s@, j as int) == line_end(s@, i as int),
        decreases s.len() - j,
    {
        j += 1;
    }
    j
}

fn block_end_exec(s: &Vec<char>, i: usize) -> (r: Option<usize>)
    requires
        i <= s.len(),
    ensures
        match r {
            Some(e) => block_end(s@, i as int) == Some(e as int) && e <= s.len(),
            None => block_end(s@, i as int) is None,
        },
{
    let mut j = i;
    while j < s.len() && j + 1 < s.len()
        invariant
            i <= j <= s.len(),
            block_end(s@, j as int) == block_end(s@, i as int),
        decreases s.len() - j,
    {
        if s[j] == '*' && s[j + 1] == '/' {
            return Some(j + 2);
        }
        j += 1;
    }
    None
}

/// The first position from `i` on outside white space and comments (see
/// `skip_gap`).
fn skip_gap_exec(s: &Vec<char>, i: usize) -> (r: usize)
    requires
        i <= s.len(),
    ensures
        r == skip_gap(s@, i as int),
        i <= r <= s.len(),
{
    let mut j = i;
    while j < s.len()
        invariant
            i <= j <= s.len(),
            skip_gap(s@, j as int) == skip_gap(s@, i as int),
        decreases s.len() - j,
    {
        let c = s[j];
        let ghost jo = j as int;
        assert(c == s@[jo]);
        if c == ' ' || c == '\t' || c == '\n' || c == '\r' {
            assert(is_space(s@[jo]));
            j += 1;
        } else if c == '/' && j + 1 < s.len() && s[j + 1] == '/' {
            assert(at_char(s@, jo, '/') && at_char(s@, jo + 1, '/'));
            let e = line_end_exec(s, j + 2);
            assert(skip_gap(s@, jo) == skip_gap(s@, e as int));
            j = e;
        } else if c == '/' && j + 1 < s.len() && s[j + 1] == '*' {
            assert(at_char(s@, jo, '/') && at_char(s@, jo + 1, '*'));
            assert(!is_space(s@[jo]));
            proof {
                lemma_block_end(s@, jo + 2);
            }
            match block_end_exec(s, j + 2) {
                Some(e) => {
                    assert(skip_gap(s@, jo) == skip_gap(s@, e as int));
                    j = e;
                },
                None => return j,
            }
        } else {
            return j;
        }
    }
    j
}

fn char_at(s: &Vec<char>, k: usize, c: char) -> (r: bool)
    ensures
        r == at_char(s@, k as int, c),
{
    k < s.len() && s[k] == c
}

fn digits_stop(s: &Vec<char>, i: usize) -> (r: usize)
    requires
        i <= s.len(),
    ensures
        r == digits_end(s@, i as int),
        i <= r <= s.len(),
        forall|k: int| i <= k < r ==> is_digit(#[trigger] s@[k]),
{
    let mut j = i;
    while j < s.len() && '0' <= s[j] && s[j] <= '9'
        invariant
            i <= j <= s.len(),
            digits_end(s@, j as int) == digits_end(s@, i as int),
            forall|k: int| i <= k < j ==> is_digit(#[trigger] s@[k]),
        decreases s.len() - j,
    {
        j += 1;
    }
    j
}

proof fn lemma_digits_grow(s: Seq<char>, i: int, k: int, e: int)
    requires
        i <= k <= e <= s.len(),
        forall|m: int| i <= m < e ==> is_digit(#[trigger] s[m]),
    ensures
        0 <= digits_value(s, i, k) <= digits_value(s, i, e),
    decreases e - i,
{
    if e > i {
        if k < e {
            lemma_digits_grow(s, i, k, e - 1);
        } else {
            lemma_digits_grow(s, i, k - 1, e - 1);
        }
        assert(is_digit(s[e - 1]));
        let prev = digits_value(s, i, e - 1);
        assert(prev * 10 >= prev) by (nonlinear_arith)
            requires
                prev >= 0,
        ;
    }
}

fn read_number(s: &Vec<char>, i: usize, e: usize) -> (r: Option<i64>)
    requires
        i <= e <= s.len(),
        forall|k: int| i <= k < e ==> is_digit(#[trigger] s@[k]),
    ensures
        r is Some <==> digits_value(s@, i as int, e as int) <= i64::MAX,
        r matches Some(v) ==> v == digits_value(s@, i as int, e as int),
{
    let mut v: i64 = 0;
    let mut k = i;
    while k < e
        invariant
            i <= k <= e <= s.len(),
            forall|m: int| i <= m < e ==> is_digit(#[trigger] s@[m]),
            v == digits_value(s@, i as int, k as int),
            v >= 0,
        decreases e - k,
    {
        assert(is_digit(s@[k as int]));
        let d: i64 = (s[k] as u32 - '0' as u32) as i64;
        assert(d == s@[k as int] as int - '0' as int);
        if v > (i64::MAX - d) / 10 {
            proof {
                let q = (i64::MAX - d) / 10;
                assert(v * 10 + d > i64::MAX) by (nonlinear_arith)
                    requires
                        v > q,
                        q == (i64::MAX - d) / 10,
                        0 <= d <= 9,
                ;
                lemma_digits_grow(s@, i as int, k + 1, e as int);
            }
            return None;
        }
        proof {
            let q = (i64::MAX - d) / 10;
            assert(v * 10 + d <= i64::MAX) by (nonlinear_arith)
                requires
                    v <= q,
                    q == (i64::MAX - d) / 10,
                    0 <= d <= 9,
                    v >= 0,
            ;
        }
        v = v * 10 + d;
        k += 1;
    }
    Some(v)
}

fn find_text_end(s: &Vec<char>, i: usize) -> (r: Option<usize>)
    requires
        i <= s.len(),
    ensures
        match r {
            Some(e) => text_end(s@, i as int) == Some(e as int) && i <= e < s.len(),
            None => text_end(s@, i as int) is None,
        },
{
    let mut j = i;
    while j < s.len()
        invariant
            i <= j <= s.len(),
            text_end(s@, j as int) == text_end(s@, i as int),
        decreases s.len() - j,
    {
        if s[j] == '"' {
            return Some(j);
        }
        if s[j] == '\\' {
            if s.len() - j >= 2 {
                j += 2;
            } else {
                return None;
            }
        } else {
            j += 1;
        }
    }
    None
}

fn operator_at(s: &Vec<char>, k: usize, level: usize) -> (r: Option<(BinOperator, usize)>)
    requires
        k <= s.len(),
    ensures
        match r {
            Some((op, n)) => op_at(s@, k as int, level as int) == Some((op, n as int)) && k + n <= s.len(),
            None => op_at(s@, k as int, level as int) is None,
        },
{
    if level == 1 && char_at(s, k, '|') && char_at(s, k + 1, '|') {
        Some((BinOperator::Or, 2))
    } else if level == 2 && char_at(s, k, '&') && char_at(s, k + 1, '&') {
        Some((BinOperator::And, 2))
    } else if level == 3 && char_at(s, k, '=') && char_at(s, k + 1, '=') {
        Some((BinOperator::Equal, 2))
    } else if level == 3 && char_at(s, k, '!') && char_at(s, k + 1, '=') {
        Some((BinOperator::NotEqual, 2))
    } else if level == 3 && char_at(s, k, '<') && char_at(s, k + 1, '=') {
        Some((BinOperator::LowerOrEqual, 2))
    } else if level == 3 && char_at(s, k, '<') && !char_at(s, k + 1, '<') {
        Some((BinOperator::Lower, 1))
    } else if level == 3 && char_at(s, k, '>') && char_at(s, k + 1, '=') {
        Some((BinOperator::GreaterOrEqual, 2))
    } else if level == 3 && char_at(s, k, '>') && !char_at(s, k + 1, '>') {
        Some((BinOperator::Greater, 1))
    } else if level == 4 && char_at(s, k, '|') && !char_at(s, k + 1, '|') {
        Some((BinOperator::BitwiseOr, 1))
    } else if level == 5 && char_at(s, k, '^') {
        Some((BinOperator::Xor, 1))
    } else if level == 6 && char_at(s, k, '&') && !char_at(s, k + 1, '&') {
        Some((BinOperator::BitwiseAnd, 1))
    } else if level == 7 && char_at(s, k, '<') && char_at(s, k + 1, '<') {
        Some((BinOperator::LShift, 2))
    } else if level == 7 && char_at(s, k, '>') && char_at(s, k + 1, '>') {
        Some((BinOperator::RShift, 2))
    } else if level == 8 && char_at(s, k, '+') {
        Some((BinOperator::Add, 1))
    } else if level == 8 && char_at(s, k, '-') && !char_at(s, k + 1, '>') {
        Some((BinOperator::Subtract, 1))
    } else if level == 9 && char_at(s, k, '*') && !char_at(s, k + 1, '*') {
        Some((BinOperator::Multiply, 1))
    } else if level == 9 && char_at(s, k, '/') {
        Some((BinOperator::Divide, 1))
    } else if level == 9 && char_at(s, k, '%') {
        Some((BinOperator::Modulo, 1))
    } else if level == 10 && char_at(s, k, '*') && char_at(s, k + 1, '*') {
        Some((BinOperator::Pow, 2))
    } else if level == 11 && char_at(s, k, '?') {
        Some((BinOperator::Filter, 1))
    } else if level == 11 && char_at(s, k, '@') {
        Some((BinOperator::MapOp, 1))
    } else {
        None
    }
}

fn text_of(text: &str, i: usize, e: usize) -> (r: String)
    requires
        i <= e <= text@.len(),
    ensures
        r@ == text@.subrange(i as int, e as int),
{
    String::from_str(text.substring_char(i, e))
}

fn read_expr(s: &Vec<char>, text: &str, i: usize) -> (r: Option<(ParseTree, usize)>)
    requires
        i <= s.len(),
        s@ == text@,
    ensures
        tparsed(r) == p_expr(s@, i as int),
        r matches Some((_, m)) ==> m <= s.len(),
    decreases s.len() - i, 30int, 0int,
{
    let j = skip_gap_exec(s, i);
    if j < s.len() && is_letter_at(s, j) {
        let e = end_of_word(s, j);
        let k = skip_gap_exec(s, e);
        if j < e && char_at(s, k, '=') && !char_at(s, k + 1, '=') {
            return match read_expr(s, text, k + 1) {
                Some((x, m)) => {
                    let name = text_of(text, j, e);
                    let t = ParseTree::Assignment(name, Box::new(x));
                    assert(t@ == TreeView::Assignment(s@.subrange(j as int, e as int), Box::new(x@)));
                    Some((t, m))
                },
                None => None,
            };
        }
    }
    read_bin(s, text, i, 1)
}

fn is_letter_at(s: &Vec<char>, j: usize) -> (r: bool)
    requires
        j < s.len(),
    ensures
        r == is_letter(s@[j as int]),
{
    let c = s[j];
    ('a' <= c && c <= 'z') || ('A' <= c && c <= 'Z') || c == '_'
}

fn read_bin(s: &Vec<char>, text: &str, i: usize, level: usize) -> (r: Option<(ParseTree, usize)>)
    requires
        i <= s.len(),
        s@ == text@,
    ensures
        tparsed(r) == p_bin(s@, i as int, level as int),
        r matches Some((_, m)) ==> m <= s.len(),
    decreases s.len() - i, 20 - level, 0int,
{
    if level < 1 || level > 12 {
        None
    } else if level == 12 {
        read_postfix(s, text, i)
    } else {
        match read_bin(s, text, i, level + 1) {
            Some((x, j)) => if i < j && j <= s.len() {
                read_bin_rest(s, text, j, x, level)
            } else {
                None
            },
            None => None,
        }
    }
}

fn read_bin_rest(s: &Vec<char>, text: &str, j: usize, acc: ParseTree, level: usize) -> (r: Option<
    (ParseTree, usize),
>)
    requires
        j <= s.len(),
        s@ == text@,
    ensures
        tparsed(r) == p_bin_rest(s@, j as int, acc@, level as int),
        r matches Some((_, m)) ==> m <= s.len(),
    decreases s.len() - j, 0int, 0int,
{
    let k = skip_gap_exec(s, j);
    match operator_at(s, k, level) {
        Some((op, n)) => if j < k + n && 1 <= level && level < 12 {
            match read_bin(s, text, k + n, level + 1) {
                Some((y, m)) => if j < m && m <= s.len() {
                    let t = ParseTree::Infix(Box::new(acc), op, Box::new(y));
                    assert(t@ == TreeView::Infix(Box::new(acc@), op, Box::new(y@)));
                    read_bin_rest(s, text, m, t, level)
                } else {
                    None
                },
                None => None,
            }
        } else {
            None
        },
        None => Some((acc, j)),
    }
}

fn read_postfix(s: &Vec<char>, text: &str, i: usize) -> (r: Option<(ParseTree, usize)>)
    requires
        i <= s.len(),
        s@ == text@,
    ensures
        tparsed(r) == p_postfix(s@, i as int),
        r matches Some((_, m)) ==> m <= s.len(),
    decreases s.len() - i, 3int, 0int,
{
    let k = skip_gap_exec(s, i);
    match read_operand(s, text, k) {
        Some((x, j)) => if i < j && j <= s.len() {
            read_index(s, text, j, x)
        } else {
            None
        },
        None => None,
    }
}

fn read_index(s: &Vec<char>, text: &str, j: usize, acc: ParseTree) -> (r: Option<(ParseTree, usize)>)
    requires
        j <= s.len(),
        s@ == text@,
    ensures
        tparsed(r) == p_index(s@, j as int, acc@),
        r matches Some((_, m)) ==> m <= s.len(),
    decreases s.len() - j, 1int, 0int,
{
    let k = skip_gap_exec(s, j);
    if char_at(s, k, '[') && j <= k {
        match read_expr(s, text, k + 1) {
            Some((x, m)) => {
                let m2 = skip_gap_exec(s, m);
                if char_at(s, m2, ']') && j < m2 + 1 {
                    let t = ParseTree::Infix(Box::new(acc), BinOperator::At, Box::new(x));
                    assert(t@ == TreeView::Infix(Box::new(acc@), BinOperator::At, Box::new(x@)));
                    read_index(s, text, m2 + 1, t)
                } else {
                    None
                }
            },
            None => None,
        }
    } else {
        Some((acc, j))
    }
}

fn read_list(s: &Vec<char>, text: &str, i: usize, acc: Vec<ParseTree>, close: char) -> (r: Option<
    (Vec<ParseTree>, usize),
>)
    requires
        i <= s.len(),
        s@ == text@,
    ensures
        lparsed(r) == p_list(s@, i as int, tree_views(acc@), close),
        r matches Some((_, m)) ==> m <= s.len(),
    decreases s.len() - i, 40int, 0int,
{
    let k = skip_gap_exec(s, i);
    if acc.len() == 0 && char_at(s, k, close) && i <= k {
        return Some((acc, k + 1));
    }
    proof {
        if acc.len() != 0 {
            assert(tree_views(acc@).len() != 0) by {
                assert(acc@ =~= acc@.subrange(0, acc.len() - 1).push(acc@[acc.len() - 1]));
            }
        }
    }
    match read_expr(s, text, i) {
        Some((x, m)) => {
            let m2 = skip_gap_exec(s, m);
            let mut acc = acc;
            let ghost before = acc@;
            acc.push(x);
            proof {
                lemma_tree_views_push(before, x);
            }
            if char_at(s, m2, close) {
                Some((acc, m2 + 1))
            } else if char_at(s, m2, ',') && i < m2 + 1 {
                read_list(s, text, m2 + 1, acc, close)
            } else {
                None
            }
        },
        None => None,
    }
}

fn read_block(s: &Vec<char>, text: &str, i: usize, acc: Vec<ParseTree>, whole: bool) -> (r: Option<
    (Vec<ParseTree>, usize),
>)
    requires
        i <= s.len(),
        s@ == text@,
    ensures
        lparsed(r) == p_block(s@, i as int, tree_views(acc@), whole),
        r matches Some((_, m)) ==> m <= s.len(),
    decreases s.len() - i, 40int, 0int,
{
    let k = skip_separators(s, i);
    if whole && k >= s.len() {
        Some((acc, k))
    } else if !whole && char_at(s, k, '}') {
        Some((acc, k + 1))
    } else if k < s.len() {
        match read_expr(s, text, k) {
            Some((x, m)) => if i < m && m <= s.len() && k < m {
                let mut acc = acc;
                let ghost before = acc@;
                acc.push(x);
                proof {
                    lemma_tree_views_push(before, x);
                }
                read_block(s, text, m, acc, whole)
            } else {
                None
            },
            None => None,
        }
    } else {
        None
    }
}

fn read_params(s: &Vec<char>, text: &str, i: usize, acc: Vec<Param>) -> (r: Option<(Vec<Param>, usize)>)
    requires
        i <= s.len(),
        s@ == text@,
    ensures
        pparsed(r) == p_params(s@, i as int, param_views(acc@)),
        r matches Some((_, m)) ==> m <= s.len(),
    decreases s.len() - i,
{
    let j = skip_gap_exec(s, i);
    if acc.len() == 0 && char_at(s, j, ')') && i <= j {
        return Some((acc, j + 1));
    }
    if j < s.len() && is_letter_at(s, j) {
        let e = end_of_word(s, j);
        let c = skip_gap_exec(s, e);
        if char_at(s, c, ':') && j < c + 1 {
            match read_type(s, c + 1) {
                Some((t, m)) => {
                    let m2 = skip_gap_exec(s, m);
                    let p = Param { name: text_of(text, j, e), var_type: t };
                    let mut acc = acc;
                    let ghost before = acc@;
                    acc.push(p);
                    proof {
                        assert(param_views(acc@) =~= param_views(before).push(
                            ParamView { name: s@.subrange(j as int, e as int), var_type: t@ },
                        ));
                    }
                    if char_at(s, m2, ')') {
                        Some((acc, m2 + 1))
                    } else if char_at(s, m2, ',') && i < m2 + 1 {
                        read_params(s, text, m2 + 1, acc)
                    } else {
                        None
                    }
                },
                None => None,
            }
        } else {
            None
        }
    } else {
        None
    }
}

fn read_operand(s: &Vec<char>, text: &str, i: usize) -> (r: Option<(ParseTree, usize)>)
    requires
        i <= s.len(),
        s@ == text@,
    ensures
        tparsed(r) == p_operand(s@, i as int),
        r matches Some((_, m)) ==> m <= s.len(),
    decreases s.len() - i, 2int, 1int,
{
    if i >= s.len() {
        return None;
    }
    let c = s[i];
    if '0' <= c && c <= '9' {
        read_number_operand(s, i)
    } else if c == '"' {
        match find_text_end(s, i + 1) {
            Some(e) => {
                let t = ParseTree::Text(text_of(text, i + 1, e));
                Some((t, e + 1))
            },
            None => None,
        }
    } else if c == '[' {
        read_array(s, text, i + 1)
    } else if c == '(' {
        read_paren_operand(s, text, i)
    } else if is_letter_at(s, i) {
        read_word_operand(s, text, i)
    } else {
        None
    }
}

fn read_number_operand(s: &Vec<char>, i: usize) -> (r: Option<(ParseTree, usize)>)
    requires
        i < s.len(),
        is_digit(s@[i as int]),
    ensures
        tparsed(r) == p_operand(s@, i as int),
        r matches Some((_, m)) ==> m <= s.len(),
{
    let e = digits_stop(s, i);
    if e < s.len() && is_letter_at(s, e) {
        return None;
    }
    match read_number(s, i, e) {
        Some(v) => Some((ParseTree::Int(v), e)),
        None => None,
    }
}

fn read_paren_operand(s: &Vec<char>, text: &str, i: usize) -> (r: Option<(ParseTree, usize)>)
    requires
        i < s.len(),
        s@[i as int] == '(',
        s@ == text@,
    ensures
        tparsed(r) == p_operand(s@, i as int),
        r matches Some((_, m)) ==> m <= s.len(),
    decreases s.len() - i, 2int, 0int,
{
    proof {
        assert(param_views(Seq::<Param>::empty()) =~= Seq::<ParamView>::empty());
        assert(tree_views(Seq::<ParseTree>::empty()) =~= Seq::<TreeView>::empty());
    }
    match read_params(s, text, i + 1, Vec::new()) {
        Some((ps, k)) => {
            let a = skip_gap_exec(s, k);
            if char_at(s, a, '-') && char_at(s, a + 1, '>') {
                match read_type(s, a + 2) {
                    Some((t, m)) => {
                        let b = skip_gap_exec(s, m);
                        if char_at(s, b, '{') && i < b + 1 {
                            match read_block(s, text, b + 1, Vec::new(), false) {
                                Some((body, n)) => {
                                    let f = ParseTree::Function(Params(ps), t, body);
                                    Some((f, n))
                                },
                                None => None,
                            }
                        } else {
                            None
                        }
                    },
                    None => None,
                }
            } else {
                None
            }
        },
        None => match read_expr(s, text, i + 1) {
            Some((x, m)) => {
                let m2 = skip_gap_exec(s, m);
                if char_at(s, m2, ')') {
                    Some((x, m2 + 1))
                } else {
                    None
                }
            },
            None => None,
        },
    }
}

/// An array literal after its `[` (see `p_array`).
fn read_array(s: &Vec<char>, text: &str, i: usize) -> (r: Option<(ParseTree, usize)>)
    requires
        i <= s.len(),
        s@ == text@,
    ensures
        tparsed(r) == p_array(s@, i as int),
        r matches Some((_, m)) ==> m <= s.len(),
    decreases s.len() - i, 40int, 1int,
{
    proof {
        assert(tree_views(Seq::<ParseTree>::empty()) =~= Seq::<TreeView>::empty());
    }
    let k = skip_gap_exec(s, i);
    if char_at(s, k, ']') && i <= k {
        return Some((ParseTree::Array(Vec::new()), k + 1));
    }
    match read_expr(s, text, i) {
        Some((x, m)) => {
            let m2 = skip_gap_exec(s, m);
            if char_at(s, m2, ';') && i < m2 + 1 {
                match read_expr(s, text, m2 + 1) {
                    Some((n, b)) => {
                        let c = skip_gap_exec(s, b);
                        if char_at(s, c, ']') {
                            Some((ParseTree::ArrayRepeat(Box::new(x), Box::new(n)), c + 1))
                        } else {
                            None
                        }
                    },
                    None => None,
                }
            } else {
                let mut acc: Vec<ParseTree> = Vec::new();
                acc.push(x);
                proof {
                    lemma_tree_views_push(Seq::<ParseTree>::empty(), x);
                    assert(tree_views(acc@) =~= seq![x@]);
                }
                if char_at(s, m2, ']') {
                    Some((ParseTree::Array(acc), m2 + 1))
                } else if char_at(s, m2, ',') && i < m2 + 1 {
                    match read_list(s, text, m2 + 1, acc, ']') {
                        Some((xs, e)) => Some((ParseTree::Array(xs), e)),
                        None => None,
                    }
                } else {
                    None
                }
            }
        },
        None => None,
    }
}

/// The `else` block after the first block of an `if` (see `p_else`).
fn read_else(s: &Vec<char>, text: &str, n: usize) -> (r: Option<(Vec<ParseTree>, usize)>)
    requires
        n <= s.len(),
        s@ == text@,
    ensures
        lparsed(r) == p_else(s@, n as int),
        r matches Some((_, m)) ==> m <= s.len(),
    decreases s.len() - n, 1int, 0int,
{
    proof {
        assert(tree_views(Seq::<ParseTree>::empty()) =~= Seq::<TreeView>::empty());
    }
    let k = skip_gap_exec(s, n);
    let f = end_of_word(s, k);
    let else_w = ['e', 'l', 's', 'e'];
    assert(else_w@ == else_word());
    if word_is(s, k, f, &else_w) {
        let b = skip_gap_exec(s, f);
        if char_at(s, b, '{') && n < b + 1 {
            read_block(s, text, b + 1, Vec::new(), false)
        } else {
            None
        }
    } else {
        Some((Vec::new(), n))
    }
}

fn read_word_operand(s: &Vec<char>, text: &str, i: usize) -> (r: Option<(ParseTree, usize)>)
    requires
        i < s.len(),
        is_letter(s@[i as int]),
        s@ == text@,
    ensures
        tparsed(r) == p_operand(s@, i as int),
        r matches Some((_, m)) ==> m <= s.len(),
    decreases s.len() - i, 2int, 0int,
{
    proof {
        assert(tree_views(Seq::<ParseTree>::empty()) =~= Seq::<TreeView>::empty());
    }
    let e = end_of_word(s, i);
    let loop_w = ['l', 'o', 'o', 'p'];
    let break_w = ['b', 'r', 'e', 'a', 'k'];
    let continue_w = ['c', 'o', 'n', 't', 'i', 'n', 'u', 'e'];
    assert(loop_w@ == loop_word());
    assert(break_w@ == break_word());
    assert(continue_w@ == continue_word());
    let if_w = ['i', 'f'];
    assert(if_w@ == if_word());
    let true_w = ['t', 'r', 'u', 'e'];
    let false_w = ['f', 'a', 'l', 's', 'e'];
    assert(true_w@ == true_word());
    assert(false_w@ == false_word());
    if word_is(s, i, e, &loop_w) {
        let b = skip_gap_exec(s, e);
        if char_at(s, b, '{') && i < b + 1 {
            match read_block(s, text, b + 1, Vec::new(), false) {
                Some((body, n)) => Some((ParseTree::Loop(body), n)),
                None => None,
            }
        } else {
            None
        }
    } else if word_is(s, i, e, &break_w) {
        Some((ParseTree::Break, e))
    } else if word_is(s, i, e, &continue_w) {
        Some((ParseTree::Continue, e))
    } else if word_is(s, i, e, &if_w) && i < e {
        match read_expr(s, text, e) {
            Some((c, k)) => {
                let b = skip_gap_exec(s, k);
                if char_at(s, b, '{') && i < b + 1 {
                    match read_block(s, text, b + 1, Vec::new(), false) {
                        Some((a, n)) => if i < n && n <= s.len() {
                            match read_else(s, text, n) {
                                Some((els, m)) => Some((ParseTree::If(Box::new(c), a, els), m)),
                                None => None,
                            }
                        } else {
                            None
                        },
                        None => None,
                    }
                } else {
                    None
                }
            },
            None => None,
        }
    } else if word_is(s, i, e, &true_w) {
        Some((ParseTree::Bool(true), e))
    } else if word_is(s, i, e, &false_w) {
        Some((ParseTree::Bool(false), e))
    } else {
        let k = skip_gap_exec(s, e);
        let w = text_of(text, i, e);
        if char_at(s, k, '(') && i < k + 1 {
            match read_list(s, text, k + 1, Vec::new(), ')') {
                Some((xs, m)) => Some((ParseTree::Call(w, xs), m)),
                None => None,
            }
        } else {
            Some((ParseTree::Ident(w), e))
        }
    }
}

/// The statements of a script (see `parse_script_spec`): refused with
/// `Parsing` and the text when it is not a script.
pub fn parse_script(text: &str) -> (r: Result<Vec<ParseTree>, Error>)
    ensures
        r matches Ok(ts) ==> parse_script_spec(text@) == Some(tree_views(ts@)),
        r is Err <==> parse_script_spec(text@) is None,
        r matches Err(e) ==> (e matches Error::Parsing(m) && m@ == text@),
{
    let s = chars_of(text);
    proof {
        assert(tree_views(Seq::<ParseTree>::empty()) =~= Seq::<TreeView>::empty());
    }
    match read_block(&s, text, 0, Vec::new(), true) {
        Some((ts, _)) => Ok(ts),
        None => Err(Error::Parsing(String::from_str(text))),
    }
}


proof fn lemma_digit(d: nat)
    requires
        d < 10,
    ensures
        is_digit(digit(d)),
        digit(d) as int - '0' as int == d,
{
}

proof fn lemma_digits_value_prefix(s: Seq<char>, t: Seq<char>, i: int, e: int)
    requires
        0 <= i,
        e <= s.len(),
    ensures
        digits_value(s + t, i, e) == digits_value(s, i, e),
    decreases e - i,
{
    if e > i {
        lemma_digits_value_prefix(s, t, i, e - 1);
        assert((s + t)[e - 1] == s[e - 1]);
    }
}

proof fn lemma_decimal_reads(n: nat)
    ensures
        decimal(n).len() >= 1,
        forall|k: int| 0 <= k < decimal(n).len() ==> is_digit(#[trigger] decimal(n)[k]),
        digits_value(decimal(n), 0, decimal(n).len() as int) == n,
    decreases n,
{
    if n < 10 {
        lemma_digit(n);
        assert(digits_value(decimal(n), 0, 0) == 0);
    } else {
        let h = decimal(n / 10);
        let d = seq![digit(n % 10)];
        lemma_decimal_reads(n / 10);
        lemma_digit(n % 10);
        assert(decimal(n) == h + d);
        lemma_digits_value_prefix(h, d, 0, h.len() as int);
        assert((h + d).subrange(0, 0) =~= Seq::<char>::empty());
        assert forall|k: int| 0 <= k < decimal(n).len() implies is_digit(#[trigger] decimal(n)[k]) by {
            if k < h.len() {
                assert(decimal(n)[k] == h[k]);
            } else {
                assert(decimal(n)[k] == d[0]);
            }
        }
        assert(digits_value(h + d, 0, (h + d).len() as int) == digits_value(h + d, 0, h.len() as int)
            * 10 + ((h + d)[h.len() as int] as int - '0' as int));
        assert(n == (n / 10) * 10 + n % 10);
    }
}

proof fn lemma_digits_end_all(s: Seq<char>, i: int)
    requires
        0 <= i <= s.len(),
        forall|k: int| 0 <= k < s.len() ==> is_digit(#[trigger] s[k]),
    ensures
        digits_end(s, i) == s.len(),
    decreases s.len() - i,
{
    if i < s.len() {
        lemma_digits_end_all(s, i + 1);
    }
}

/// A number written in decimal reads back as that number.
pub proof fn lemma_number_reads_back(n: nat)
    requires
        n <= i64::MAX,
    ensures
        p_operand(decimal(n), 0) == Some((TreeView::Int(n as i64), decimal(n).len() as int)),
{
    lemma_decimal_reads(n);
    lemma_digits_end_all(decimal(n), 0);
}


proof fn lemma_text_end_plain(s: Seq<char>, t: Seq<char>, i: int)
    requires
        s == seq!['"'] + t + seq!['"'],
        1 <= i <= t.len() + 1,
        forall|k: int| 0 <= k < t.len() ==> t[k] != '"' && t[k] != '\\',
    ensures
        text_end(s, i) == Some(t.len() as int + 1),
    decreases t.len() + 1 - i,
{
    if i < t.len() + 1 {
        assert(s[i] == t[i - 1]);
        lemma_text_end_plain(s, t, i + 1);
    } else {
        assert(s[i] == '"');
    }
}

/// A string literal without quotes or backslashes in it reads as its text.
pub proof fn lemma_plain_text_reads(t: Seq<char>)
    requires
        forall|k: int| 0 <= k < t.len() ==> t[k] != '"' && t[k] != '\\',
    ensures
        p_operand(seq!['"'] + t + seq!['"'], 0) == Some((TreeView::Text(t), t.len() as int + 2)),
{
    let s = seq!['"'] + t + seq!['"'];
    lemma_text_end_plain(s, t, 1);
    assert(s[0] == '"');
    assert(s.subrange(1, t.len() as int + 1) =~= t);
}

} // verus!
