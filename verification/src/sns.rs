//! SNS governance proposals of the release tooling: the proposal types,
//! version labels, and reading a proposal id back from the reply's text.
use vstd::prelude::*;
use crate::principal::Principal;
use crate::text::{chars_of, string_of, trim_chars, parse_u64_chars, parse_u64, trimmed, decimal, decimal_chars, occurs_at, occurs_at_exec};

verus! {

/// The id under which the `change_canister` generic function is registered.
pub const CHANGE_CANISTER_FUNCTION_ID: u64 = 5001;
/// The SNS root canister, which controls the platform orchestrator.
pub const SNS_ROOT_ID: &'static str = "67bll-riaaa-aaaaq-aaauq-cai";
/// The user info service, which hosts `validate_install_code`.
pub const USER_INFO_SERVICE_ID: &'static str = "ivkka-7qaaa-aaaas-qbg3q-cai";
/// `install_code` mode numbers of the management canister.
pub const INSTALL_MODE_INSTALL: i32 = 1;
pub const INSTALL_MODE_REINSTALL: i32 = 2;
pub const INSTALL_MODE_UPGRADE: i32 = 3;

/// An install mode of SNS root's `change_canister`.
#[derive(Clone, Copy, PartialEq, Eq, Debug, Structural)]
pub enum CanisterInstallMode {
    Install,
    Reinstall,
    Upgrade,
}

/// A generic nervous system function call with its payload.
pub struct ExecuteGenericNervousSystemFunction {
    pub function_id: u64,
    pub payload: Vec<u8>,
}

/// A neuron command of SNS governance's `manage_neuron`.
pub struct ManageNeuron {
    pub subaccount: Vec<u8>,
    pub command: Option<Command>,
}

/// The command a neuron is asked to carry out.
pub enum Command {
    MakeProposal(Proposal),
}

/// A governance proposal.
pub struct Proposal {
    pub title: String,
    pub url: String,
    pub summary: String,
    pub action: Option<Action>,
}

/// What an adopted proposal does.
pub enum Action {
    UpgradeSnsControlledCanister(UpgradeSnsControlledCanister),
    AddGenericNervousSystemFunction(NervousSystemFunction),
    ExecuteGenericNervousSystemFunction(ExecuteGenericNervousSystemFunction),
    DeregisterDappCanisters(DeregisterDappCanisters),
    RegisterDappCanisters(RegisterDappCanisters),
}

/// Hands dapp canisters back to `new_controllers`.
pub struct DeregisterDappCanisters {
    pub canister_ids: Vec<Principal>,
    pub new_controllers: Vec<Principal>,
}

/// Puts dapp canisters under the SNS.
pub struct RegisterDappCanisters {
    pub canister_ids: Vec<Principal>,
}

/// A nervous system function to register.
pub struct NervousSystemFunction {
    pub id: u64,
    pub name: String,
    pub description: Option<String>,
    pub function_type: Option<FunctionType>,
}

/// Whether a nervous system function is native or a generic call.
pub enum FunctionType {
    NativeNervousSystemFunction,
    GenericNervousSystemFunction(GenericNervousSystemFunction),
}

/// A generic function: the method it calls, and the method that validates
/// its payload.
pub struct GenericNervousSystemFunction {
    pub target_canister_id: Option<Principal>,
    pub target_method_name: Option<String>,
    pub validator_canister_id: Option<Principal>,
    pub validator_method_name: Option<String>,
}

/// The argument of SNS root's `change_canister`.
pub struct ChangeCanisterRequest {
    pub mode: CanisterInstallMode,
    pub canister_id: Principal,
    pub wasm_module: Vec<u8>,
    pub arg: Vec<u8>,
    pub stop_before_installing: bool,
    pub chunked_canister_wasm: Option<()>,
}

/// The argument of the management canister's `install_code`.
pub struct InstallCodeArgument {
    pub mode: CanisterInstallMode,
    pub canister_id: Principal,
    pub wasm_module: Vec<u8>,
    pub arg: Vec<u8>,
    pub sender_canister_version: Option<u64>,
}

/// An upgrade (or reinstall) of an SNS-controlled canister; `mode` is the
/// install mode's number.
pub struct UpgradeSnsControlledCanister {
    pub canister_id: Option<Principal>,
    pub new_canister_wasm: Vec<u8>,
    pub canister_upgrade_arg: Option<Vec<u8>>,
    pub mode: Option<i32>,
    pub chunked_canister_wasm: Option<()>,
}

/// The link a release proposal points to.
pub open spec fn release_url() -> Seq<char> {
    "https://yral.com"@
}

/// The proposal that reinstalls the platform orchestrator `po` with `wasm`
/// as release `version`, made by the neuron of `subaccount`.
pub fn reinstall_proposal(subaccount: Vec<u8>, version: &str, po: Principal, wasm: Vec<u8>) -> (r: ManageNeuron)
    ensures
        r.subaccount@ == subaccount@,
        r.command matches Some(Command::MakeProposal(p))
            && p.title@ == "Upgrade platform_orchestrator to "@ + version@
            && p.summary@ == "# Upgrade platform_orchestrator to "@ + version@
            && p.url@ == release_url()
            && (p.action matches Some(Action::UpgradeSnsControlledCanister(u))
                && (u.canister_id matches Some(c) && c@ == po@)
                && u.new_canister_wasm@ == wasm@
                && u.canister_upgrade_arg is None
                && u.mode == Some(INSTALL_MODE_REINSTALL)
                && u.chunked_canister_wasm is None),
{
    let upgrade = UpgradeSnsControlledCanister {
        canister_id: Some(po),
        new_canister_wasm: wasm,
        canister_upgrade_arg: None,
        mode: Some(INSTALL_MODE_REINSTALL),
        chunked_canister_wasm: None,
    };
    let proposal = Proposal {
        title: proposal_title(version),
        url: "https://yral.com".to_string(),
        summary: proposal_summary(version),
        action: Some(Action::UpgradeSnsControlledCanister(upgrade)),
    };
    ManageNeuron { subaccount, command: Some(Command::MakeProposal(proposal)) }
}

/// The id of a submitted proposal.
pub struct ProposalId {
    pub id: u64,
}

/// The reply to a `MakeProposal` command.
pub struct MakeProposalResponse {
    pub proposal_id: Option<ProposalId>,
}

/// The reply to a neuron command.
pub enum CommandResponse {
    MakeProposal(MakeProposalResponse),
}

/// The reply of `manage_neuron`.
pub struct ManageNeuronResponse {
    pub command: Option<CommandResponse>,
}

/// The proposal id in a `manage_neuron` reply, where it holds one.
pub fn proposal_id_of(response: &ManageNeuronResponse) -> (r: Option<u64>)
    ensures
        r is Some <==> (response.command matches Some(CommandResponse::MakeProposal(m)) && m.proposal_id is Some),
        r matches Some(id) ==> (response.command matches Some(CommandResponse::MakeProposal(m))
            && m.proposal_id matches Some(p) && p.id == id),
{
    match &response.command {
        Some(CommandResponse::MakeProposal(m)) => match &m.proposal_id {
            Some(p) => Some(p.id),
            None => None,
        },
        None => None,
    }
}

/// The install mode number of a mode.
pub fn install_mode_number(mode: CanisterInstallMode) -> (r: i32)
    ensures
        mode == CanisterInstallMode::Install ==> r == INSTALL_MODE_INSTALL,
        mode == CanisterInstallMode::Reinstall ==> r == INSTALL_MODE_REINSTALL,
        mode == CanisterInstallMode::Upgrade ==> r == INSTALL_MODE_UPGRADE,
{
    match mode {
        CanisterInstallMode::Install => INSTALL_MODE_INSTALL,
        CanisterInstallMode::Reinstall => INSTALL_MODE_REINSTALL,
        CanisterInstallMode::Upgrade => INSTALL_MODE_UPGRADE,
    }
}

/// The first position from `i` on where `sep` occurs in `text`, or -1.
pub open spec fn first_occurrence_from(text: Seq<char>, sep: Seq<char>, i: int) -> int
    decreases text.len() + 1 - i,
{
    if i < 0 || i + sep.len() > text.len() {
        -1
    } else if occurs_at(text, sep, i) {
        i
    } else {
        first_occurrence_from(text, sep, i + 1)
    }
}

/// The text before the first `sep` (all of it where `sep` does not occur):
/// the first piece of `str::split`.
pub open spec fn first_piece(text: Seq<char>, sep: Seq<char>) -> Seq<char> {
    let i = first_occurrence_from(text, sep, 0);
    if i < 0 { text } else { text.take(i) }
}

/// The last position of `c` in `s`, or -1.
pub open spec fn last_index_of(s: Seq<char>, c: char) -> int
    decreases s.len(),
{
    if s.len() == 0 {
        -1
    } else if s.last() == c {
        s.len() - 1
    } else {
        last_index_of(s.drop_last(), c)
    }
}

/// `s` without underscores.
pub open spec fn without_underscores(s: Seq<char>) -> Seq<char> {
    s.filter(|c: char| c != '_')
}

/// The proposal id printed in a `manage_neuron` reply's text: in the part
/// before the first `": nat64"`, the digits after the last `'='` (trimmed,
/// underscores dropped).
pub open spec fn proposal_id_in_text(text: Seq<char>) -> Option<u64> {
    let head = first_piece(text, ": nat64"@);
    let k = last_index_of(head, '=');
    if k < 0 {
        None
    } else {
        parse_u64(without_underscores(trimmed(head.skip(k + 1))))
    }
}

proof fn lemma_first_occurrence_bounds(text: Seq<char>, sep: Seq<char>, i: int)
    ensures
        first_occurrence_from(text, sep, i) >= 0 ==> first_occurrence_from(text, sep, i) + sep.len() <= text.len(),
        first_occurrence_from(text, sep, i) >= -1,
    decreases text.len() + 1 - i,
{
    if !(i < 0 || i + sep.len() > text.len()) && !occurs_at(text, sep, i) {
        lemma_first_occurrence_bounds(text, sep, i + 1);
    }
}

proof fn lemma_last_index_bounds(s: Seq<char>, c: char)
    ensures
        -1 <= last_index_of(s, c) < s.len(),
        last_index_of(s, c) >= 0 ==> s[last_index_of(s, c)] == c,
    decreases s.len(),
{
    if s.len() > 0 && s.last() != c {
        lemma_last_index_bounds(s.drop_last(), c);
    }
}

fn first_piece_chars(text: &Vec<char>, sep: &Vec<char>) -> (r: Vec<char>)
    requires
        sep@.len() > 0,
    ensures
        r@ == first_piece(text@, sep@),
{
    let tl = text.len();
    let sl = sep.len();
    let mut end: usize = tl;
    if sl <= tl {
        let last = tl - sl;
        let mut i: usize = 0;
        let mut found: bool = false;
        while !found && i <= last
            invariant
                last + sl == tl,
                tl == text@.len(),
                sl == sep@.len(),
                sl > 0,
                i <= last + 1,
                found ==> i <= last && occurs_at(text@, sep@, i as int) && first_occurrence_from(text@, sep@, 0) == i,
                !found ==> first_occurrence_from(text@, sep@, 0) == first_occurrence_from(text@, sep@, i as int),
            decreases last + 1 - i, if found { 0int } else { 1int },
        {
            if occurs_at_exec(text, sep, i) {
                found = true;
            } else {
                i = i + 1;
            }
        }
        if found {
            end = i;
        } else {
            assert(first_occurrence_from(text@, sep@, i as int) == -1);
        }
    } else {
        assert(first_occurrence_from(text@, sep@, 0) == -1);
    }
    proof {
        lemma_first_occurrence_bounds(text@, sep@, 0);
    }
    let mut out: Vec<char> = Vec::new();
    let mut k: usize = 0;
    while k < end
        invariant
            end <= text@.len(),
            k <= end,
            out@ == text@.take(k as int),
        decreases end - k,
    {
        out.push(text[k]);
        k = k + 1;
        assert(out@ =~= text@.take(k as int));
    }
    proof {
        if end == text@.len() {
            assert(text@.take(k as int) =~= text@);
        }
    }
    out
}

/// The proposal id printed in the text of a `manage_neuron` reply, as the
/// release tooling reads it.
pub fn proposal_id_from_text(text: &str) -> (r: Option<u64>)
    ensures
        r == proposal_id_in_text(text@),
{
    let t = chars_of(text);
    let sep = chars_of(": nat64");
    proof {
        reveal_strlit(": nat64");
    }
    let head = first_piece_chars(&t, &sep);
    let mut k: usize = head.len();
    assert(head@.take(k as int) =~= head@);
    while k > 0 && head[k - 1] != '='
        invariant
            k <= head@.len(),
            last_index_of(head@, '=') == last_index_of(head@.take(k as int), '='),
        decreases k,
    {
        proof {
            let s = head@.take(k as int);
            assert(s.drop_last() =~= head@.take(k - 1));
        }
        k = k - 1;
    }
    if k == 0 {
        proof {
            assert(head@.take(0) =~= Seq::<char>::empty());
        }
        return None;
    }
    proof {
        let s = head@.take(k as int);
        assert(s.last() == '=');
        assert(last_index_of(head@, '=') == k - 1);
    }
    let mut tail: Vec<char> = Vec::new();
    let mut i: usize = k;
    while i < head.len()
        invariant
            k <= i <= head@.len(),
            tail@ == head@.subrange(k as int, i as int),
        decreases head@.len() - i,
    {
        tail.push(head[i]);
        i = i + 1;
        assert(tail@ =~= head@.subrange(k as int, i as int));
    }
    assert(tail@ =~= head@.skip(k as int));
    let trimmed_tail = trim_chars(&tail);
    let mut digits: Vec<char> = Vec::new();
    let mut j: usize = 0;
    while j < trimmed_tail.len()
        invariant
            j <= trimmed_tail@.len(),
            digits@ == trimmed_tail@.take(j as int).filter(|c: char| c != '_'),
        decreases trimmed_tail@.len() - j,
    {
        proof {
            let s = trimmed_tail@.take(j + 1);
            assert(s.drop_last() =~= trimmed_tail@.take(j as int));
            reveal_with_fuel(Seq::filter, 1);
        }
        if trimmed_tail[j] != '_' {
            digits.push(trimmed_tail[j]);
        }
        j = j + 1;
    }
    assert(trimmed_tail@.take(j as int) =~= trimmed_tail@);
    parse_u64_chars(&digits)
}

/// A release label `v` followed by the number (`format!("v{n}")`).
pub open spec fn version_label(n: int) -> Seq<char> {
    if n < 0 {
        seq!['v', '-'] + decimal((-n) as nat)
    } else {
        seq!['v'] + decimal(n as nat)
    }
}

/// The label of release `n`.
pub fn release_label(n: i64) -> (r: String)
    ensures
        r@ == version_label(n as int),
{
    let mut v: Vec<char> = Vec::new();
    v.push('v');
    let magnitude: u64 = if n < 0 {
        v.push('-');
        ((-(n + 1)) as u64) + 1
    } else {
        n as u64
    };
    let digits = decimal_chars(magnitude);
    let ghost head = v@;
    let mut i: usize = 0;
    while i < digits.len()
        invariant
            i <= digits@.len(),
            v@ == head + digits@.take(i as int),
        decreases digits@.len() - i,
    {
        v.push(digits[i]);
        i = i + 1;
        assert(v@ =~= head + digits@.take(i as int));
    }
    assert(digits@.take(i as int) =~= digits@);
    assert(v@ =~= version_label(n as int));
    string_of(&v)
}

/// The next release's label after release `current`: the counter goes up by
/// one.
pub fn next_release_label(current: i64) -> (r: String)
    requires
        current < i64::MAX,
    ensures
        r@ == version_label(current + 1),
{
    release_label(current + 1)
}

/// The title of a release proposal.
pub fn proposal_title(version: &str) -> (r: String)
    ensures
        r@ == "Upgrade platform_orchestrator to "@ + version@,
{
    "Upgrade platform_orchestrator to ".to_string().concat(version)
}

/// The summary of a release proposal.
pub fn proposal_summary(version: &str) -> (r: String)
    ensures
        r@ == "# Upgrade platform_orchestrator to "@ + version@,
{
    "# Upgrade platform_orchestrator to ".to_string().concat(version)
}

/// The name of the registered `change_canister` generic function.
pub fn change_canister_function_name() -> (r: String)
    ensures
        r@ == "change_canister (id="@ + decimal(CHANGE_CANISTER_FUNCTION_ID as nat) + ")"@,
{
    let mut v = chars_of("change_canister (id=");
    let digits = decimal_chars(CHANGE_CANISTER_FUNCTION_ID);
    let ghost head = v@;
    let mut i: usize = 0;
    while i < digits.len()
        invariant
            i <= digits@.len(),
            v@ == head + digits@.take(i as int),
        decreases digits@.len() - i,
    {
        v.push(digits[i]);
        i = i + 1;
        assert(v@ =~= head + digits@.take(i as int));
    }
    assert(digits@.take(i as int) =~= digits@);
    let ghost mid = v@;
    v.push(')');
    assert(v@ =~= head + decimal(CHANGE_CANISTER_FUNCTION_ID as nat) + ")"@) by {
        reveal_strlit(")");
    }
    string_of(&v)
}

/// `digits` with zeros in front up to `width` characters.
pub open spec fn zero_padded(digits: Seq<char>, width: nat) -> Seq<char> {
    if digits.len() < width {
        Seq::new((width - digits.len()) as nat, |i: int| '0') + digits
    } else {
        digits
    }
}

/// The decimal text of `n` padded with zeros to `width` characters.
fn padded_decimal(n: u64, width: usize) -> (r: Vec<char>)
    ensures
        r@ == zero_padded(decimal(n as nat), width as nat),
{
    let digits = decimal_chars(n);
    let mut out: Vec<char> = Vec::new();
    if digits.len() < width {
        let zeros = width - digits.len();
        while out.len() < zeros
            invariant
                out@.len() <= zeros,
                forall|i: int| 0 <= i < out@.len() ==> out@[i] == '0',
            decreases zeros - out@.len(),
        {
            out.push('0');
        }
        assert(out@ =~= Seq::new(zeros as nat, |i: int| '0'));
    }
    let ghost head = out@;
    let mut i: usize = 0;
    while i < digits.len()
        invariant
            i <= digits@.len(),
            out@ == head + digits@.take(i as int),
        decreases digits@.len() - i,
    {
        out.push(digits[i]);
        i = i + 1;
        assert(out@ =~= head + digits@.take(i as int));
    }
    assert(digits@.take(i as int) =~= digits@);
    assert(out@ =~= zero_padded(decimal(n as nat), width as nat));
    out
}

/// A release label made from a Unix time: the year (counting 365-day years
/// from 1970) in four digits, then the second of the day in six.
pub open spec fn timestamp_label(secs: nat) -> Seq<char> {
    zero_padded(decimal(1970 + secs / 86400 / 365), 4) + zero_padded(decimal(secs % 86400), 6)
}

/// The release label of the upgrade made at Unix time `secs`.
pub fn timestamp_version(secs: u64) -> (r: String)
    ensures
        r@ == timestamp_label(secs as nat),
{
    let days = secs / 86400;
    let year = 1970 + days / 365;
    let mut v = padded_decimal(year, 4);
    let tail = padded_decimal(secs % 86400, 6);
    let ghost head = v@;
    let mut i: usize = 0;
    while i < tail.len()
        invariant
            i <= tail@.len(),
            v@ == head + tail@.take(i as int),
        decreases tail@.len() - i,
    {
        v.push(tail[i]);
        i = i + 1;
        assert(v@ =~= head + tail@.take(i as int));
    }
    assert(tail@.take(i as int) =~= tail@);
    string_of(&v)
}

} // verus!
