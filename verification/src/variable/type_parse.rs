use crate::errors::parse_type_error::ParseTypeError;
use crate::variable::type_text::{
    any_text, bool_text, float_text, function_text, int_text, mut_text, never_text, string_text,
};
use crate::variable::var_type::{lemma_views_push, union, views, Type, TypeView};
use vstd::prelude::*;

verus! {

pub open spec fn is_space(c: char) -> bool {
    c == ' ' || c == '\t' || c == '\n' || c == '\r'
}

pub open spec fn is_letter(c: char) -> bool {
    ('a' <= c && c <= 'z') || ('A' <= c && c <= 'Z') || c == '_'
}

/// The first position from `i` on that does not hold white space.
pub open spec fn skip_ws(s: Seq<char>, i: int) -> int
    decreases s.len() - i,
{
    if 0 <= i < s.len() && is_space(s[i]) {
        skip_ws(s, i + 1)
    } else {
        i
    }
}

/// The first position from `i` on that does not hold a letter.
pub open spec fn word_end(s: Seq<char>, i: int) -> int
    decreases s.len() - i,
{
    if 0 <= i < s.len() && is_letter(s[i]) {
        word_end(s, i + 1)
    } else {
        i
    }
}

/// The type named by a keyword.
pub open spec fn keyword_type(w: Seq<char>) -> Option<TypeView> {
    if w == int_text() {
        Some(TypeView::Int)
    } else if w == float_text() {
        Some(TypeView::Float)
    } else if w == bool_text() {
        Some(TypeView::Bool)
    } else if w == string_text() {
        Some(TypeView::String)
    } else if w == any_text() {
        Some(TypeView::Any)
    } else if w == never_text() {
        Some(TypeView::Never)
    } else {
        None
    }
}

/// A type read from position `i` of `s`: one operand, then any further
/// operands each after `|`. The result is the union of the operands and
/// the position after the last one.
pub open spec fn p_type(s: Seq<char>, i: int) -> Option<(TypeView, int)>
    decreases s.len() - i, 2nat,
{
    let j0 = skip_ws(s, i);
    if i <= j0 <= s.len() {
        match p_single(s, j0) {
            Some((t, j)) => if i < j <= s.len() {
                p_alts(s, j, t)
            } else {
                None
            },
            None => None,
        }
    } else {
        None
    }
}

/// The operands that follow `acc` after `|`, from position `j` on.
pub open spec fn p_alts(s: Seq<char>, j: int, acc: TypeView) -> Option<(TypeView, int)>
    decreases s.len() - j, 0nat,
{
    let k = skip_ws(s, j);
    if 0 <= k < s.len() && s[k] == '|' {
        let k1 = skip_ws(s, k + 1);
        if j < k1 <= s.len() {
            match p_single(s, k1) {
                Some((t, m)) => if j < m <= s.len() {
                    p_alts(s, m, union(acc, t))
                } else {
                    None
                },
                None => None,
            }
        } else {
            None
        }
    } else {
        Some((acc, j))
    }
}

/// One operand read from position `i`: a keyword type, `()`, a type in
/// parentheses, a tuple `(T1, T2, ...)`, an array `[T]` (`[]` for `[never]`),
/// `mut T` or `function(T1, ...)->R`.
pub open spec fn p_single(s: Seq<char>, i: int) -> Option<(TypeView, int)>
    decreases s.len() - i, 1nat,
{
    if i < 0 || i >= s.len() {
        None
    } else if s[i] == '(' {
        let j = skip_ws(s, i + 1);
        if 0 <= j < s.len() && s[j] == ')' {
            Some((TypeView::Void, j + 1))
        } else {
            match p_type(s, i + 1) {
                Some((t, k)) => {
                    let k2 = skip_ws(s, k);
                    if 0 <= k2 < s.len() && s[k2] == ')' {
                        Some((t, k2 + 1))
                    } else if 0 <= k2 < s.len() && s[k2] == ',' && i < k2 + 1 {
                        match p_items(s, k2 + 1, seq![t]) {
                            Some((ts, m)) => Some((TypeView::Tuple(ts), m)),
                            None => None,
                        }
                    } else {
                        None
                    }
                },
                None => None,
            }
        }
    } else if s[i] == '[' {
        let j = skip_ws(s, i + 1);
        if 0 <= j < s.len() && s[j] == ']' {
            Some((TypeView::Array(Box::new(TypeView::Never)), j + 1))
        } else {
            match p_type(s, i + 1) {
                Some((t, k)) => {
                    let k2 = skip_ws(s, k);
                    if 0 <= k2 < s.len() && s[k2] == ']' {
                        Some((TypeView::Array(Box::new(t)), k2 + 1))
                    } else {
                        None
                    }
                },
                None => None,
            }
        }
    } else if is_letter(s[i]) {
        let e = word_end(s, i);
        let w = s.subrange(i, e);
        if keyword_type(w) is Some {
            Some((keyword_type(w)->0, e))
        } else if w == mut_text() {
            let j = skip_ws(s, e);
            if i < j <= s.len() {
                match p_single(s, j) {
                    Some((t, k)) => Some((TypeView::Mut(Box::new(t)), k)),
                    None => None,
                }
            } else {
                None
            }
        } else if w == function_text() {
            let j = skip_ws(s, e);
            if 0 <= j < s.len() && s[j] == '(' && i < j + 1 {
                let j1 = skip_ws(s, j + 1);
                let params = if 0 <= j1 < s.len() && s[j1] == ')' {
                    Some((Seq::<TypeView>::empty(), j1 + 1))
                } else {
                    p_items(s, j + 1, Seq::empty())
                };
                match params {
                    Some((ps, k)) => {
                        let a = skip_ws(s, k);
                        if 0 <= a && a + 1 < s.len() && s[a] == '-' && s[a + 1] == '>' {
                            let b = skip_ws(s, a + 2);
                            if i < b <= s.len() {
                                match p_single(s, b) {
                                    Some((r, m)) => Some((TypeView::Function(ps, Box::new(r)), m)),
                                    None => None,
                                }
                            } else {
                                None
                            }
                        } else {
                            None
                        }
                    },
                    None => None,
                }
            } else {
                None
            }
        } else {
            None
        }
    } else {
        None
    }
}

/// Types separated by `,` and closed by `)`, read from position `i`, after the
/// types `acc` already read.
pub open spec fn p_items(s: Seq<char>, i: int, acc: Seq<TypeView>) -> Option<(Seq<TypeView>, int)>
    decreases s.len() - i, 3nat,
{
    match p_type(s, i) {
        Some((t, k)) => {
            let k2 = skip_ws(s, k);
            if 0 <= k2 < s.len() && s[k2] == ')' {
                Some((acc.push(t), k2 + 1))
            } else if 0 <= k2 < s.len() && s[k2] == ',' && k2 + 1 > i {
                p_items(s, k2 + 1, acc.push(t))
            } else {
                None
            }
        },
        None => None,
    }
}

/// The type written in `s`, surrounding white space allowed; `None` when `s`
/// is not the text of a type.
pub open spec fn parse_type(s: Seq<char>) -> Option<TypeView> {
    match p_type(s, 0) {
        Some((t, k)) => if skip_ws(s, k) == s.len() {
            Some(t)
        } else {
            None
        },
        None => None,
    }
}


pub open spec fn parsed(r: Option<(Type, usize)>) -> Option<(TypeView, int)> {
    match r {
        Some((t, j)) => Some((t@, j as int)),
        None => None,
    }
}

pub open spec fn parsed_items(r: Option<(Vec<Type>, usize)>) -> Option<(Seq<TypeView>, int)> {
    match r {
        Some((ts, j)) => Some((views(ts@), j as int)),
        None => None,
    }
}

/// The characters of a string.
pub(crate) fn chars_of(s: &str) -> (r: Vec<char>)
    ensures
        r@ == s@,
{
    let mut r: Vec<char> = Vec::new();
    for c in it: s.chars()
        invariant
            r@ == it.seq().take(it.index() as int),
    {
        r.push(c);
    }
    r
}

fn is_space_char(c: char) -> (r: bool)
    ensures
        r == is_space(c),
{
    c == ' ' || c == '\t' || c == '\n' || c == '\r'
}

fn is_letter_char(c: char) -> (r: bool)
    ensures
        r == is_letter(c),
{
    ('a' <= c && c <= 'z') || ('A' <= c && c <= 'Z') || c == '_'
}

pub(crate) fn skip_spaces(s: &Vec<char>, i: usize) -> (r: usize)
    requires
        i <= s.len(),
    ensures
        r == skip_ws(s@, i as int),
        i <= r <= s.len(),
{
    let mut j = i;
    while j < s.len() && is_space_char(s[j])
        invariant
            i <= j <= s.len(),
            skip_ws(s@, j as int) == skip_ws(s@, i as int),
        decreases s.len() - j,
    {
        j += 1;
    }
    j
}

pub(crate) fn end_of_word(s: &Vec<char>, i: usize) -> (r: usize)
    requires
        i <= s.len(),
    ensures
        r == word_end(s@, i as int),
        i <= r <= s.len(),
        i < s.len() && is_letter(s@[i as int]) ==> i < r,
{
    let mut j = i;
    while j < s.len() && is_letter_char(s[j])
        invariant
            i <= j <= s.len(),
            word_end(s@, j as int) == word_end(s@, i as int),
        decreases s.len() - j,
    {
        j += 1;
    }
    j
}

pub(crate) fn word_is(s: &Vec<char>, i: usize, e: usize, w: &[char]) -> (r: bool)
    requires
        i <= e <= s.len(),
    ensures
        r == (s@.subrange(i as int, e as int) == w@),
{
    if e - i != w.len() {
        assert(s@.subrange(i as int, e as int).len() != w@.len());
        return false;
    }
    let mut k: usize = 0;
    while k < w.len()
        invariant
            0 <= k <= w@.len(),
            e - i == w@.len(),
            i <= e <= s.len(),
            forall|j: int| 0 <= j < k ==> s@[i + j] == w@[j],
        decreases w.len() - k,
    {
        if s[i + k] != w[k] {
            assert(s@.subrange(i as int, e as int)[k as int] != w@[k as int]);
            return false;
        }
        k += 1;
    }
    assert(s@.subrange(i as int, e as int) =~= w@);
    true
}

fn keyword(s: &Vec<char>, i: usize, e: usize) -> (r: Option<Type>)
    requires
        i <= e <= s.len(),
    ensures
        crate::variable::var_type::opt_view(r) == keyword_type(s@.subrange(i as int, e as int)),
{
    let int_w = ['i', 'n', 't'];
    let float_w = ['f', 'l', 'o', 'a', 't'];
    let bool_w = ['b', 'o', 'o', 'l'];
    let string_w = ['s', 't', 'r', 'i', 'n', 'g'];
    let any_w = ['a', 'n', 'y'];
    let never_w = ['n', 'e', 'v', 'e', 'r'];
    assert(int_w@ == int_text());
    assert(float_w@ == float_text());
    assert(bool_w@ == bool_text());
    assert(string_w@ == string_text());
    assert(any_w@ == any_text());
    assert(never_w@ == never_text());
    if word_is(s, i, e, &int_w) {
        Some(Type::Int)
    } else if word_is(s, i, e, &float_w) {
        Some(Type::Float)
    } else if word_is(s, i, e, &bool_w) {
        Some(Type::Bool)
    } else if word_is(s, i, e, &string_w) {
        Some(Type::String)
    } else if word_is(s, i, e, &any_w) {
        Some(Type::Any)
    } else if word_is(s, i, e, &never_w) {
        Some(Type::Never)
    } else {
        None
    }
}

pub(crate) fn read_type(s: &Vec<char>, i: usize) -> (r: Option<(Type, usize)>)
    requires
        i <= s.len(),
    ensures
        parsed(r) == p_type(s@, i as int),
        r matches Some((_, j)) ==> i < j <= s.len(),
    decreases s.len() - i, 2nat,
{
    let j0 = skip_spaces(s, i);
    match read_single(s, j0) {
        Some((t, j)) => if i < j && j <= s.len() {
            read_alts(s, j, t)
        } else {
            None
        },
        None => None,
    }
}

fn read_alts(s: &Vec<char>, j: usize, acc: Type) -> (r: Option<(Type, usize)>)
    requires
        j <= s.len(),
    ensures
        parsed(r) == p_alts(s@, j as int, acc@),
        r matches Some((_, m)) ==> j <= m <= s.len(),
    decreases s.len() - j, 0nat,
{
    let k = skip_spaces(s, j);
    if k < s.len() && s[k] == '|' {
        let k1 = skip_spaces(s, k + 1);
        match read_single(s, k1) {
            Some((t, m)) => if j < m && m <= s.len() {
                read_alts(s, m, acc.union(t))
            } else {
                None
            },
            None => None,
        }
    } else {
        Some((acc, j))
    }
}

fn read_items(s: &Vec<char>, i: usize, acc: Vec<Type>) -> (r: Option<(Vec<Type>, usize)>)
    requires
        i <= s.len(),
    ensures
        parsed_items(r) == p_items(s@, i as int, views(acc@)),
        r matches Some((_, j)) ==> i < j <= s.len(),
    decreases s.len() - i, 3nat,
{
    match read_type(s, i) {
        Some((t, k)) => {
            let k2 = skip_spaces(s, k);
            let mut acc = acc;
            let ghost before = acc@;
            acc.push(t);
            proof {
                lemma_views_push(before, t);
            }
            if k2 < s.len() && s[k2] == ')' {
                Some((acc, k2 + 1))
            } else if k2 < s.len() && s[k2] == ',' {
                read_items(s, k2 + 1, acc)
            } else {
                None
            }
        },
        None => None,
    }
}

fn read_single(s: &Vec<char>, i: usize) -> (r: Option<(Type, usize)>)
    requires
        i <= s.len(),
    ensures
        parsed(r) == p_single(s@, i as int),
        r matches Some((_, j)) ==> i < j <= s.len(),
    decreases s.len() - i, 1nat,
{
    if i >= s.len() {
        return None;
    }
    if s[i] == '(' {
        let j = skip_spaces(s, i + 1);
        if j < s.len() && s[j] == ')' {
            return Some((Type::Void, j + 1));
        }
        match read_type(s, i + 1) {
            Some((t, k)) => {
                let k2 = skip_spaces(s, k);
                if k2 < s.len() && s[k2] == ')' {
                    Some((t, k2 + 1))
                } else if k2 < s.len() && s[k2] == ',' {
                    let first = crate::variable::var_type::vec1(t);
                    match read_items(s, k2 + 1, first) {
                        Some((ts, m)) => Some((Type::tuple(ts), m)),
                        None => None,
                    }
                } else {
                    None
                }
            },
            None => None,
        }
    } else if s[i] == '[' {
        let j = skip_spaces(s, i + 1);
        if j < s.len() && s[j] == ']' {
            proof {
                assert(Type::Never@ == TypeView::Never);
            }
            return Some((Type::array(Type::Never), j + 1));
        }
        match read_type(s, i + 1) {
            Some((t, k)) => {
                let k2 = skip_spaces(s, k);
                if k2 < s.len() && s[k2] == ']' {
                    Some((Type::array(t), k2 + 1))
                } else {
                    None
                }
            },
            None => None,
        }
    } else if is_letter_char(s[i]) {
        let e = end_of_word(s, i);
        if let Some(t) = keyword(s, i, e) {
            return Some((t, e));
        }
        let mut_w = ['m', 'u', 't'];
        let function_w = ['f', 'u', 'n', 'c', 't', 'i', 'o', 'n'];
        assert(mut_w@ == mut_text());
        assert(function_w@ == function_text());
        if word_is(s, i, e, &mut_w) {
            let j = skip_spaces(s, e);
            if i < j {
                match read_single(s, j) {
                    Some((t, k)) => Some((Type::mutable(t), k)),
                    None => None,
                }
            } else {
                None
            }
        } else if word_is(s, i, e, &function_w) {
            let j = skip_spaces(s, e);
            if j < s.len() && s[j] == '(' {
                let j1 = skip_spaces(s, j + 1);
                let params = if j1 < s.len() && s[j1] == ')' {
                    let empty: Vec<Type> = Vec::new();
                    proof {
                        assert(views(empty@) =~= Seq::<TypeView>::empty());
                    }
                    Some((empty, j1 + 1))
                } else {
                    let empty: Vec<Type> = Vec::new();
                    proof {
                        assert(views(empty@) =~= Seq::<TypeView>::empty());
                    }
                    read_items(s, j + 1, empty)
                };
                match params {
                    Some((ps, k)) => {
                        let a = skip_spaces(s, k);
                        if a < s.len() && a + 1 < s.len() && s[a] == '-' && s[a + 1] == '>' {
                            let b = skip_spaces(s, a + 2);
                            if i < b {
                                match read_single(s, b) {
                                    Some((r, m)) => Some((Type::function(ps, r), m)),
                                    None => None,
                                }
                            } else {
                                None
                            }
                        } else {
                            None
                        }
                    },
                    None => None,
                }
            } else {
                None
            }
        } else {
            None
        }
    } else {
        None
    }
}

/// Reads a type from its text (see `parse_type`).
pub fn parse(text: &str) -> (r: Result<Type, ParseTypeError>)
    ensures
        match r {
            Ok(t) => parse_type(text@) == Some(t@),
            Err(_) => parse_type(text@) is None,
        },
{
    let s = chars_of(text);
    match read_type(&s, 0) {
        Some((t, k)) => {
            if skip_spaces(&s, k) == s.len() {
                Ok(t)
            } else {
                Err(ParseTypeError)
            }
        },
        None => Err(ParseTypeError),
    }
}

} // verus!
