//! The parameter changes that carry a reset directive through governance:
//! how a directive is written as parameter values, and how it is read back
//! from them once the proposal has passed.

use crate::governance::GovernanceResetDirective;
use vstd::prelude::*;

verus! {

/// One parameter change of a governance proposal.
#[derive(Debug)]
pub struct ParamChange {
    pub subspace: String,
    pub key: String,
    pub value: String,
}

/// The mathematical content of a [`ParamChange`].
pub struct ParamChangeView {
    pub subspace: Seq<char>,
    pub key: Seq<char>,
    pub value: Seq<char>,
}

impl View for ParamChange {
    type V = ParamChangeView;

    open spec fn view(&self) -> ParamChangeView {
        ParamChangeView { subspace: self.subspace@, key: self.key@, value: self.value@ }
    }
}

/// The views of a sequence of parameter changes.
pub open spec fn param_views(s: Seq<ParamChange>) -> Seq<ParamChangeView> {
    Seq::new(s.len(), |i: int| s[i]@)
}

/// Why a proposal could not be written.
#[derive(Clone, Copy, Debug, PartialEq, Eq, Structural)]
pub enum ProposalError {
    /// The JSON writer reported an error for the reset flag.
    Encoding,
}

/// The subspace of the bridge's parameters.
pub open spec fn subspace_text() -> Seq<char> {
    "gravity"@
}

/// The key of the parameter that asks for a reset.
pub open spec fn state_key_text() -> Seq<char> {
    "ResetBridgeState"@
}

/// The key of the parameter that holds the target nonce.
pub open spec fn nonce_key_text() -> Seq<char> {
    "ResetBridgeNonce"@
}

/// A truth value as JSON writes it.
pub open spec fn bool_text(b: bool) -> Seq<char> {
    if b {
        "true"@
    } else {
        "false"@
    }
}

/// The digit `d` as a character.
pub open spec fn digit_char(d: nat) -> char {
    (48 + d) as char
}

/// The value of a digit character, or -1 for any other.
pub open spec fn digit_of(c: char) -> int {
    if 48 <= c as int <= 57 {
        c as int - 48
    } else {
        -1
    }
}

/// The decimal digits of `n`, without leading zeros.
pub open spec fn decimal(n: nat) -> Seq<char>
    decreases n,
{
    if n < 10 {
        seq![digit_char(n)]
    } else {
        decimal(n / 10).push(digit_char(n % 10))
    }
}

/// The number that a sequence of digits stands for.
pub open spec fn digits_value(s: Seq<char>) -> nat
    decreases s.len(),
{
    if s.len() == 0 {
        0
    } else {
        digits_value(s.drop_last()) * 10 + digit_of(s.last()) as nat
    }
}

/// Whether every character is a digit.
pub open spec fn all_digits(s: Seq<char>) -> bool {
    forall|i: int| 0 <= i < s.len() ==> digit_of(#[trigger] s[i]) >= 0
}

/// The number that `s` is the decimal of: one or more digits whose value
/// fits in 64 bits.
pub open spec fn parse_decimal(s: Seq<char>) -> Option<u64> {
    if s.len() > 0 && all_digits(s) && digits_value(s) <= u64::MAX {
        Some(digits_value(s) as u64)
    } else {
        None
    }
}

/// A text between double quotes.
pub open spec fn quoted(s: Seq<char>) -> Seq<char> {
    seq!['"'] + s + seq!['"']
}

/// The number that `s` holds between double quotes.
pub open spec fn parse_quoted(s: Seq<char>) -> Option<u64> {
    if s.len() >= 2 && s[0] == '"' && s[s.len() - 1] == '"' {
        parse_decimal(s.subrange(1, s.len() - 1))
    } else {
        None
    }
}

/// The truth value that `s` is the JSON of.
pub open spec fn parse_bool(s: Seq<char>) -> Option<bool> {
    if s == bool_text(true) {
        Some(true)
    } else if s == bool_text(false) {
        Some(false)
    } else {
        None
    }
}

/// The two parameter changes that ask for a reset to `nonce`, where `flag` is
/// the text of the reset flag.
pub open spec fn reset_changes(flag: Seq<char>, nonce: u64) -> Seq<ParamChangeView> {
    seq![
        ParamChangeView { subspace: subspace_text(), key: state_key_text(), value: flag },
        ParamChangeView {
            subspace: subspace_text(),
            key: nonce_key_text(),
            value: quoted(decimal(nonce as nat)),
        },
    ]
}

/// The value of the last change of the bridge's parameter `key`.
pub open spec fn lookup(changes: Seq<ParamChangeView>, key: Seq<char>) -> Option<Seq<char>>
    decreases changes.len(),
{
    if changes.len() == 0 {
        None
    } else if changes.last().subspace == subspace_text() && changes.last().key == key {
        Some(changes.last().value)
    } else {
        lookup(changes.drop_last(), key)
    }
}

/// The directive that the parameter changes of a proposal hold: the reset
/// flag and the target nonce must both be there and well written.
pub open spec fn directive_of(changes: Seq<ParamChangeView>, approved: bool) -> Option<
    GovernanceResetDirective,
> {
    match (lookup(changes, state_key_text()), lookup(changes, nonce_key_text())) {
        (Some(flag), Some(nonce)) => match (parse_bool(flag), parse_quoted(nonce)) {
            (Some(reset), Some(target_nonce)) => Some(
                GovernanceResetDirective { target_nonce, reset, approved },
            ),
            _ => None,
        },
        _ => None,
    }
}

/// A name for the error type of `serde_json`.
#[verifier::external_type_specification]
#[verifier::external_body]
pub struct ExJsonError(serde_json::Error);

/// Calls `serde_json::to_string` on a truth value. That call writes the four
/// or five bytes of `true` or `false` into a byte vector that grows as needed
/// and hands them back as a string; nothing on that way can fail, so the
/// result is always `Ok`, with the text that JSON has for the value.
#[verifier::external_body]
fn json_of_bool(b: bool) -> (r: Result<String, serde_json::Error>)
    ensures
        r is Ok,
        r matches Ok(s) ==> s@ == bool_text(b),
{
    serde_json::to_string(&b)
}

/// One decimal digit as a text.
fn digit_text(d: u64) -> (r: &'static str)
    requires
        d < 10,
    ensures
        r@ == seq![digit_char(d as nat)],
{
    proof {
        reveal_strlit("0");
        reveal_strlit("1");
        reveal_strlit("2");
        reveal_strlit("3");
        reveal_strlit("4");
        reveal_strlit("5");
        reveal_strlit("6");
        reveal_strlit("7");
        reveal_strlit("8");
        reveal_strlit("9");
    }
    let r = if d == 0 {
        "0"
    } else if d == 1 {
        "1"
    } else if d == 2 {
        "2"
    } else if d == 3 {
        "3"
    } else if d == 4 {
        "4"
    } else if d == 5 {
        "5"
    } else if d == 6 {
        "6"
    } else if d == 7 {
        "7"
    } else if d == 8 {
        "8"
    } else {
        "9"
    };
    assert(r@ =~= seq![digit_char(d as nat)]);
    r
}

/// The target nonce as the proposal writes it: its decimal digits between
/// double quotes.
pub fn quoted_nonce(nonce: u64) -> (r: String)
    ensures
        r@ == quoted(decimal(nonce as nat)),
{
    let mut digits: String = digit_text(nonce % 10).to_owned();
    let mut rest: u64 = nonce / 10;
    while rest > 0
        invariant
            decimal(nonce as nat) == if rest > 0 {
                decimal(rest as nat) + digits@
            } else {
                digits@
            },
        decreases rest,
    {
        let head: String = digit_text(rest % 10).to_owned();
        proof {
            let d = seq![digit_char((rest % 10) as nat)];
            if rest >= 10 {
                assert(decimal(rest as nat) + digits@ =~= decimal((rest / 10) as nat) + (d
                    + digits@));
            } else {
                assert(decimal(rest as nat) + digits@ =~= d + digits@);
            }
        }
        digits = head.concat(digits.as_str());
        rest = rest / 10;
    }
    proof {
        reveal_strlit("\"");
        assert("\""@ =~= seq!['"']);
    }
    let open: String = "\"".to_owned();
    open.concat(digits.as_str()).concat("\"")
}

/// The two parameter changes that ask for a reset to `nonce`, given the text
/// `flag` of the reset flag.
pub fn reset_changes_with(flag: String, nonce: u64) -> (changes: Vec<ParamChange>)
    ensures
        param_views(changes@) == reset_changes(flag@, nonce),
{
    let mut changes: Vec<ParamChange> = Vec::new();
    changes.push(
        ParamChange {
            subspace: "gravity".to_owned(),
            key: "ResetBridgeState".to_owned(),
            value: flag,
        },
    );
    changes.push(
        ParamChange {
            subspace: "gravity".to_owned(),
            key: "ResetBridgeNonce".to_owned(),
            value: quoted_nonce(nonce),
        },
    );
    assert(param_views(changes@) =~= reset_changes(flag@, nonce));
    changes
}

/// The two parameter changes that ask for a reset to `nonce`: the reset flag
/// set, as JSON, and the nonce in quotes. It succeeds for every nonce; the
/// error is there for the JSON writer's sake, which never reports one for a
/// truth value.
pub fn reset_param_changes(nonce: u64) -> (r: Result<Vec<ParamChange>, ProposalError>)
    ensures
        r matches Ok(changes) && param_views(changes@) == reset_changes(bool_text(true), nonce),
{
    match json_of_bool(true) {
        Ok(flag) => Ok(reset_changes_with(flag, nonce)),
        Err(_) => Err(ProposalError::Encoding),
    }
}

/// The value of a prefix of digits is never more than the value of the whole.
proof fn lemma_prefix_value(s: Seq<char>, k: int)
    requires
        0 <= k <= s.len(),
        all_digits(s),
    ensures
        digits_value(s.take(k)) <= digits_value(s),
    decreases s.len() - k,
{
    if k < s.len() {
        lemma_prefix_value(s, k + 1);
        assert(s.take(k + 1).drop_last() =~= s.take(k));
        assert(s.take(k + 1).last() == s[k]);
        assert(digit_of(s[k]) >= 0);
    } else {
        assert(s.take(k) =~= s);
    }
}

/// Reads a decimal number: one or more digits whose value fits in 64 bits.
pub fn read_decimal(text: &str) -> (r: Option<u64>)
    ensures
        r == parse_decimal(text@),
{
    let n = text.unicode_len();
    if n == 0 {
        return None;
    }
    let mut value: u64 = 0;
    let mut i: usize = 0;
    while i < n
        invariant
            i <= n,
            n == text@.len(),
            all_digits(text@.take(i as int)),
            value == digits_value(text@.take(i as int)),
        decreases n - i,
    {
        let c = text.get_char(i);
        proof {
            assert(text@.take(i + 1).drop_last() =~= text@.take(i as int));
            assert(text@.take(i + 1).last() == c);
        }
        if c < '0' || c > '9' {
            assert(digit_of(text@[i as int]) < 0);
            return None;
        }
        let d: u64 = (c as u32 - 48) as u64;
        let next = match value.checked_mul(10) {
            Some(tens) => tens.checked_add(d),
            None => None,
        };
        match next {
            Some(v) => {
                value = v;
            },
            None => {
                proof {
                    if all_digits(text@) {
                        lemma_prefix_value(text@, i + 1);
                    }
                }
                return None;
            },
        }
        proof {
            let before = text@.take(i as int);
            let now = text@.take(i + 1);
            assert forall|k: int| 0 <= k < now.len() implies digit_of(#[trigger] now[k]) >= 0 by {
                if k < i {
                    assert(now[k] == before[k]);
                }
            }
        }
        i = i + 1;
    }
    proof {
        assert(text@.take(i as int) =~= text@);
    }
    Some(value)
}

/// Reads a decimal number between double quotes.
pub fn read_quoted(text: &str) -> (r: Option<u64>)
    ensures
        r == parse_quoted(text@),
{
    let n = text.unicode_len();
    if n < 2 || text.get_char(0) != '"' || text.get_char(n - 1) != '"' {
        return None;
    }
    read_decimal(text.substring_char(1, n - 1))
}

/// Reads a truth value as JSON writes it.
pub fn read_bool(text: &String) -> (r: Option<bool>)
    ensures
        r == parse_bool(text@),
{
    let yes: String = "true".to_owned();
    let no: String = "false".to_owned();
    if *text == yes {
        Some(true)
    } else if *text == no {
        Some(false)
    } else {
        None
    }
}

/// The value of the last change of the bridge's parameter `key`.
fn find_param<'a>(changes: &'a Vec<ParamChange>, key: &String) -> (r: Option<&'a String>)
    ensures
        match r {
            Some(value) => lookup(param_views(changes@), key@) == Some(value@),
            None => lookup(param_views(changes@), key@) is None,
        },
{
    let subspace: String = "gravity".to_owned();
    let ghost all = param_views(changes@);
    let mut i: usize = changes.len();
    assert(all.take(i as int) =~= all);
    while i > 0
        invariant
            i <= changes.len(),
            all == param_views(changes@),
            subspace@ == subspace_text(),
            lookup(all, key@) == lookup(all.take(i as int), key@),
        decreases i,
    {
        i = i - 1;
        proof {
            assert(all.take(i + 1).drop_last() =~= all.take(i as int));
            assert(all.take(i + 1).last() == changes@[i as int]@);
        }
        if changes[i].subspace == subspace && changes[i].key == *key {
            return Some(&changes[i].value);
        }
    }
    None
}

/// Reads the directive that the parameter changes of a proposal hold, where
/// `approved` says whether the proposal has passed. There is none where the
/// reset flag or the target nonce is missing or not well written.
pub fn directive_from_params(changes: &Vec<ParamChange>, approved: bool) -> (r: Option<
    GovernanceResetDirective,
>)
    ensures
        r == directive_of(param_views(changes@), approved),
{
    let state_key: String = "ResetBridgeState".to_owned();
    let nonce_key: String = "ResetBridgeNonce".to_owned();
    let flag = match find_param(changes, &state_key) {
        Some(flag) => flag,
        None => {
            return None;
        },
    };
    let nonce = match find_param(changes, &nonce_key) {
        Some(nonce) => nonce,
        None => {
            return None;
        },
    };
    let reset = match read_bool(flag) {
        Some(reset) => reset,
        None => {
            return None;
        },
    };
    match read_quoted(nonce.as_str()) {
        Some(target_nonce) => Some(GovernanceResetDirective { target_nonce, reset, approved }),
        None => None,
    }
}

/// The decimal of a number is all digits, and stands for that number.
pub proof fn lemma_decimal_reads_back(n: nat)
    ensures
        decimal(n).len() > 0,
        all_digits(decimal(n)),
        digits_value(decimal(n)) == n,
    decreases n,
{
    if n < 10 {
        let s = decimal(n);
        assert(s.drop_last() =~= Seq::<char>::empty());
        assert(digits_value(s.drop_last()) == 0);
        assert(digit_of(s.last()) == n);
    } else {
        lemma_decimal_reads_back(n / 10);
        let s = decimal(n);
        let init = decimal(n / 10);
        assert(s.drop_last() =~= init);
        assert(digit_of(s.last()) == n % 10);
        assert forall|i: int| 0 <= i < s.len() implies digit_of(#[trigger] s[i]) >= 0 by {
            if i < init.len() {
                assert(s[i] == init[i]);
            }
        }
    }
}

/// What is written is read back: the parameter changes that ask for a reset
/// to `nonce` hold the directive to reset to `nonce`.
pub proof fn law_directive_reads_back(nonce: u64, approved: bool)
    ensures
        directive_of(reset_changes(bool_text(true), nonce), approved) == Some(
            GovernanceResetDirective { target_nonce: nonce, reset: true, approved },
        ),
{
    let changes = reset_changes(bool_text(true), nonce);
    reveal_strlit("ResetBridgeState");
    reveal_strlit("ResetBridgeNonce");
    reveal_strlit("true");
    reveal_strlit("false");
    assert(state_key_text() != nonce_key_text()) by {
        assert(state_key_text()[11] == 'S');
        assert(nonce_key_text()[11] == 'N');
    }
    assert(changes.drop_last().last() == changes[0]);
    assert(changes.drop_last().drop_last() =~= Seq::<ParamChangeView>::empty());
    assert(lookup(changes, nonce_key_text()) == Some(quoted(decimal(nonce as nat))));
    assert(lookup(changes.drop_last(), state_key_text()) == Some(bool_text(true)));
    assert(lookup(changes, state_key_text()) == Some(bool_text(true)));
    let text = quoted(decimal(nonce as nat));
    lemma_decimal_reads_back(nonce as nat);
    assert(text.subrange(1, text.len() - 1) =~= decimal(nonce as nat));
}

/// A governance proposal to change parameters.
#[derive(Debug)]
pub struct ParameterChangeProposal {
    pub title: String,
    pub description: String,
    pub changes: Vec<ParamChange>,
}

/// The title of the proposal that resets the bridge.
pub open spec fn reset_title() -> Seq<char> {
    "Reset Bridge State"@
}

/// The description of the proposal that resets the bridge.
pub open spec fn reset_description() -> Seq<char> {
    "Test resetting bridge state to before things were messed up"@
}

/// The proposal that asks for a reset to `nonce`: its title, its description
/// and the two parameter changes. It succeeds for every nonce.
pub fn reset_proposal(nonce: u64) -> (r: Result<ParameterChangeProposal, ProposalError>)
    ensures
        r matches Ok(p) && p.title@ == reset_title() && p.description@ == reset_description()
            && param_views(p.changes@) == reset_changes(bool_text(true), nonce),
{
    match reset_param_changes(nonce) {
        Ok(changes) => Ok(
            ParameterChangeProposal {
                title: "Reset Bridge State".to_owned(),
                description: "Test resetting bridge state to before things were messed up".to_owned(),
                changes,
            },
        ),
        Err(e) => Err(e),
    }
}

/// One vote to cast: validator `validator` votes yes on proposal `proposal`.
#[derive(Clone, Copy, Debug, PartialEq, Eq, Structural)]
pub struct YesVote {
    pub proposal: u64,
    pub validator: usize,
}

/// The votes that [`voting_plan`] lists.
pub open spec fn all_yes_votes(proposals: Seq<u64>, validators: nat) -> Seq<YesVote> {
    Seq::new(
        proposals.len() * validators,
        |i: int|
            YesVote {
                proposal: proposals[i / (validators as int)],
                validator: (i % (validators as int)) as usize,
            },
    )
}

/// The votes that pass every proposal in the voting period: each validator
/// votes yes on each proposal, proposal by proposal.
pub fn voting_plan(proposals: &Vec<u64>, validators: usize) -> (votes: Vec<YesVote>)
    ensures
        votes@ == all_yes_votes(proposals@, validators as nat),
{
    let ghost goal = all_yes_votes(proposals@, validators as nat);
    let mut votes: Vec<YesVote> = Vec::new();
    let mut p: usize = 0;
    while p < proposals.len()
        invariant
            p <= proposals.len(),
            goal == all_yes_votes(proposals@, validators as nat),
            votes@.len() == p * validators,
            forall|i: int| 0 <= i < votes@.len() ==> #[trigger] votes@[i] == goal[i],
        decreases proposals.len() - p,
    {
        let mut v: usize = 0;
        while v < validators
            invariant
                p < proposals.len(),
                v <= validators,
                goal == all_yes_votes(proposals@, validators as nat),
                votes@.len() == p * validators + v,
                forall|i: int| 0 <= i < votes@.len() ==> #[trigger] votes@[i] == goal[i],
            decreases validators - v,
        {
            proof {
                let i = p * validators + v;
                lemma_div_mod(p as int, v as int, validators as int);
                lemma_index_in_range(p as int, v as int, proposals@.len() as int, validators as int);
            }
            votes.push(YesVote { proposal: proposals[p], validator: v });
            v = v + 1;
        }
        proof {
            assert((p + 1) * validators == p * validators + validators) by (nonlinear_arith);
        }
        p = p + 1;
    }
    assert(votes@ =~= goal);
    votes
}

proof fn lemma_div_mod(p: int, v: int, n: int)
    requires
        0 <= p,
        0 <= v < n,
    ensures
        (p * n + v) / n == p,
        (p * n + v) % n == v,
{
    vstd::arithmetic::div_mod::lemma_fundamental_div_mod_converse(p * n + v, n, p, v);
}

proof fn lemma_index_in_range(p: int, v: int, count: int, n: int)
    requires
        0 <= p < count,
        0 <= v < n,
    ensures
        p * n + v < count * n,
{
    assert(p * n + v < count * n) by (nonlinear_arith)
        requires
            0 <= p < count,
            0 <= v < n,
    ;
}

} // verus!
