//! The rules file: one rule per line, `name;threshold;path1[;path2...]`.
use vstd::prelude::*;

use crate::detect::rule_views;
use crate::model::{texts, ProcProps, RuleView};

verus! {

/// The fields of a line, split at every `;` (a line without `;` is one field).
pub open spec fn split_fields_spec(s: Seq<char>) -> Seq<Seq<char>>
    decreases s.len(),
{
    if s.len() == 0 {
        seq![Seq::empty()]
    } else {
        let pre = split_fields_spec(s.drop_last());
        if s.last() == ';' {
            pre.push(Seq::empty())
        } else {
            pre.update(pre.len() - 1, pre.last().push(s.last()))
        }
    }
}

/// Splits a line into its `;`-separated fields.
pub fn split_fields(line: &str) -> (r: Vec<String>)
    ensures
        texts(r@) == split_fields_spec(line@),
{
    let n = line.unicode_len();
    let mut fields: Vec<String> = Vec::new();
    let mut st: usize = 0;
    let mut i: usize = 0;
    assert(line@.subrange(0, 0) =~= Seq::<char>::empty());
    assert(texts(fields@).push(line@.subrange(0, 0)) =~= seq![Seq::<char>::empty()]);
    while i < n
        invariant
            n == line@.len(),
            st <= i <= n,
            texts(fields@).push(line@.subrange(st as int, i as int)) == split_fields_spec(
                line@.subrange(0, i as int),
            ),
        decreases n - i,
    {
        let c = line.get_char(i);
        let ghost pre = split_fields_spec(line@.subrange(0, i as int));
        assert(line@.subrange(0, i + 1).drop_last() =~= line@.subrange(0, i as int));
        assert(line@.subrange(0, i + 1).last() == c);
        if c == ';' {
            let f = String::from_str(line.substring_char(st, i));
            fields.push(f);
            assert(texts(fields@) =~= pre.drop_last().push(line@.subrange(st as int, i as int)));
            st = i + 1;
            assert(line@.subrange(st as int, i + 1) =~= Seq::<char>::empty());
            assert(texts(fields@).push(line@.subrange(st as int, i + 1)) =~= pre.push(
                Seq::empty(),
            ));
        } else {
            assert(line@.subrange(st as int, i + 1) =~= line@.subrange(st as int, i as int).push(c));
            assert(texts(fields@).push(line@.subrange(st as int, i + 1)) =~= pre.update(
                pre.len() - 1,
                pre.last().push(c),
            ));
        }
        i = i + 1;
    }
    assert(line@.subrange(0, n as int) =~= line@);
    let last = String::from_str(line.substring_char(st, n));
    fields.push(last);
    assert(texts(fields@) =~= split_fields_spec(line@));
    fields
}

/// Whether a character is an ASCII decimal digit.
pub open spec fn is_digit(c: char) -> bool {
    '0' <= c <= '9'
}

/// The number written by a sequence of decimal digits.
pub open spec fn digits_value(s: Seq<char>) -> nat
    decreases s.len(),
{
    if s.len() == 0 {
        0
    } else {
        (digits_value(s.drop_last()) * 10 + s.last() as int - '0' as int) as nat
    }
}

/// A threshold field without its optional leading `+`.
pub open spec fn unsigned_digits(s: Seq<char>) -> Seq<char> {
    if s.len() > 0 && s[0] == '+' {
        s.drop_first()
    } else {
        s
    }
}

/// The value of one or more decimal digits, when it fits in 32 bits.
pub open spec fn digits_to_u32(body: Seq<char>) -> Option<u32> {
    if body.len() > 0 && (forall|i: int| 0 <= i < body.len() ==> is_digit(#[trigger] body[i]))
        && digits_value(body) <= u32::MAX {
        Some(digits_value(body) as u32)
    } else {
        None
    }
}

/// A threshold as std reads a `u32`: an optional `+`, then one or more
/// decimal digits, whose value fits in 32 bits.
pub open spec fn parse_u32_spec(s: Seq<char>) -> Option<u32> {
    digits_to_u32(unsigned_digits(s))
}

/// Reads a threshold field.
pub fn parse_threshold(s: &str) -> (r: Option<u32>)
    ensures
        r == parse_u32_spec(s@),
{
    let n = s.unicode_len();
    let mut start: usize = 0;
    if n > 0 && s.get_char(0) == '+' {
        start = 1;
    }
    let ghost body = s@.subrange(start as int, n as int);
    assert(body =~= unsigned_digits(s@));
    if start == n {
        return None;
    }
    let mut acc: u64 = 0;
    let mut i: usize = start;
    while i < n
        invariant
            n == s@.len(),
            start <= i <= n,
            body == s@.subrange(start as int, n as int),
            body == unsigned_digits(s@),
            forall|k: int| start <= k < i ==> is_digit(#[trigger] s@[k]),
            acc == digits_value(s@.subrange(start as int, i as int)),
            acc <= u32::MAX,
        decreases n - i,
    {
        let c = s.get_char(i);
        assert(body[i - start] == s@[i as int]);
        if !('0' <= c && c <= '9') {
            assert(!is_digit(body[i - start]));
            return None;
        }
        let ghost pre = s@.subrange(start as int, i as int);
        assert(s@.subrange(start as int, i + 1).drop_last() =~= pre);
        let d: u64 = (c as u32 - '0' as u32) as u64;
        acc = acc * 10 + d;
        if acc > 0xffff_ffffu64 {
            proof {
                if forall|k: int| 0 <= k < body.len() ==> is_digit(#[trigger] body[k]) {
                    assert(body.subrange(0, i + 1 - start) =~= s@.subrange(start as int, i + 1));
                    lemma_digits_value_grows(body, (i + 1 - start) as int);
                }
            }
            return None;
        }
        i = i + 1;
    }
    assert(s@.subrange(start as int, i as int) =~= body);
    Some(acc as u32)
}

/// The value of a digit string is at least that of any of its prefixes.
proof fn lemma_digits_value_grows(s: Seq<char>, k: int)
    requires
        0 <= k <= s.len(),
        forall|i: int| 0 <= i < s.len() ==> is_digit(#[trigger] s[i]),
    ensures
        digits_value(s) >= digits_value(s.subrange(0, k)),
    decreases s.len() - k,
{
    if k < s.len() {
        lemma_digits_value_grows(s, k + 1);
        assert(s.subrange(0, k + 1).drop_last() =~= s.subrange(0, k));
        assert(is_digit(s.subrange(0, k + 1).last()));
    } else {
        assert(s.subrange(0, k) =~= s);
    }
}

/// Why a rules-file line was refused.
#[derive(PartialEq, Eq, Structural, Clone, Copy, Debug)]
pub enum RuleError {
    /// Fewer than three `;`-separated fields.
    TooFewFields,
    /// The name field is empty.
    EmptyName,
    /// The threshold field is not an unsigned 32-bit decimal number.
    BadThreshold,
}

/// What a line of the rules file stands for.
pub open spec fn rule_line_spec(line: Seq<char>) -> Result<RuleView, RuleError> {
    let f = split_fields_spec(line);
    if f.len() < 3 {
        Err(RuleError::TooFewFields)
    } else if f[0].len() == 0 {
        Err(RuleError::EmptyName)
    } else {
        match parse_u32_spec(f[1]) {
            None => Err(RuleError::BadThreshold),
            Some(t) => Ok(
                RuleView { name: f[0], threshold: t as nat, whitelist: f.subrange(2, f.len() as int) },
            ),
        }
    }
}

/// Reads one line of the rules file into a rule.
pub fn parse_rule_line(line: &str) -> (r: Result<ProcProps, RuleError>)
    ensures
        match r {
            Ok(p) => rule_line_spec(line@) == Ok::<RuleView, RuleError>(p@) && p.wf(),
            Err(e) => rule_line_spec(line@) == Err::<RuleView, RuleError>(e),
        },
{
    let mut fields = split_fields(line);
    let ghost f = split_fields_spec(line@);
    if fields.len() < 3 {
        return Err(RuleError::TooFewFields);
    }
    assert(fields@[0]@ == f[0] && fields@[1]@ == f[1]);
    if fields[0].unicode_len() == 0 {
        return Err(RuleError::EmptyName);
    }
    let threshold = match parse_threshold(fields[1].as_str()) {
        None => {
            return Err(RuleError::BadThreshold);
        },
        Some(t) => t,
    };
    let whitelist = fields.split_off(2);
    assert(texts(whitelist@) =~= f.subrange(2, f.len() as int));
    let name = fields.swap_remove(0);
    Ok(ProcProps { name, threshold, whitelist })
}

/// Where and why a rules file was refused: the index of the first bad line
/// (counted from zero), its text, and what is wrong with it.
#[derive(Clone, Debug)]
pub struct RulesFileError {
    pub line_no: usize,
    pub line: String,
    pub kind: RuleError,
}

/// What a whole rules file stands for: every rule in file order, or the
/// index of the first bad line and what is wrong with it.
pub open spec fn rules_spec(lines: Seq<Seq<char>>) -> Result<Seq<RuleView>, (nat, RuleError)>
    decreases lines.len(),
{
    if lines.len() == 0 {
        Ok(Seq::empty())
    } else {
        match rules_spec(lines.drop_last()) {
            Err(e) => Err(e),
            Ok(rs) => match rule_line_spec(lines.last()) {
                Ok(r) => Ok(rs.push(r)),
                Err(k) => Err(((lines.len() - 1) as nat, k)),
            },
        }
    }
}

/// Reads every line of a rules file. One bad line refuses the whole file.
pub fn parse_rules(lines: &Vec<String>) -> (r: Result<Vec<ProcProps>, RulesFileError>)
    ensures
        match r {
            Ok(v) => rules_spec(texts(lines@)) == Ok::<Seq<RuleView>, (nat, RuleError)>(
                rule_views(v@),
            ) && forall|k: int| 0 <= k < v@.len() ==> (#[trigger] v@[k]).wf(),
            Err(e) => rules_spec(texts(lines@)) == Err::<Seq<RuleView>, (nat, RuleError)>(
                (e.line_no as nat, e.kind),
            ) && e.line_no < lines@.len() && e.line@ == lines@[e.line_no as int]@,
        },
{
    let mut rules: Vec<ProcProps> = Vec::new();
    let mut i: usize = 0;
    assert(texts(lines@).subrange(0, 0) =~= Seq::<Seq<char>>::empty());
    assert(rule_views(rules@) =~= Seq::<RuleView>::empty());
    while i < lines.len()
        invariant
            i <= lines@.len(),
            rules_spec(texts(lines@).subrange(0, i as int)) == Ok::<
                Seq<RuleView>,
                (nat, RuleError),
            >(rule_views(rules@)),
            forall|k: int| 0 <= k < rules@.len() ==> (#[trigger] rules@[k]).wf(),
        decreases lines@.len() - i,
    {
        let ghost t = texts(lines@);
        assert(t.subrange(0, i + 1).drop_last() =~= t.subrange(0, i as int));
        assert(t.subrange(0, i + 1).last() == lines@[i as int]@);
        match parse_rule_line(lines[i].as_str()) {
            Ok(p) => {
                let ghost before = rules@;
                rules.push(p);
                assert(rule_views(rules@) =~= rule_views(before).push(p@));
            },
            Err(kind) => {
                proof {
                    lemma_rules_prefix_err(t, (i + 1) as int);
                }
                return Err(RulesFileError { line_no: i, line: lines[i].clone(), kind });
            },
        }
        i = i + 1;
    }
    assert(texts(lines@).subrange(0, i as int) =~= texts(lines@));
    Ok(rules)
}

/// An error in a prefix of the lines is the error of the whole file.
proof fn lemma_rules_prefix_err(lines: Seq<Seq<char>>, k: int)
    requires
        0 <= k <= lines.len(),
        rules_spec(lines.subrange(0, k)) is Err,
    ensures
        rules_spec(lines) == rules_spec(lines.subrange(0, k)),
    decreases lines.len() - k,
{
    if k < lines.len() {
        assert(lines.subrange(0, k + 1).drop_last() =~= lines.subrange(0, k));
        lemma_rules_prefix_err(lines, k + 1);
    } else {
        assert(lines.subrange(0, k) =~= lines);
    }
}

} // verus!
