//! What is said of calls: the call list, the network operator, and the caller.

use vstd::prelude::*;
use crate::classic::at;
use crate::classic::at::{
    AtParameter,
    AtParameterModel,
    AtParsingError,
    AtResponse,
    AtResponseModel,
};
use crate::classic::hfp::values::{
    CallInfoDirection,
    CallInfoMode,
    CallInfoMultiParty,
    CallInfoStatus,
};
use crate::models;
use crate::text;

verus! {

// ---------------------------------------------------------------------------
// Parameters by position
// ---------------------------------------------------------------------------

/// The number at a position of a parameter list.
pub open spec fn number_at(parameters: Seq<AtParameterModel>, i: int) -> Option<u32> {
    if i < parameters.len() {
        parameters[i].number()
    } else {
        None
    }
}

/// The text at a position of a parameter list.
pub open spec fn text_at(parameters: Seq<AtParameterModel>, i: int) -> Option<Seq<char>> {
    if i < parameters.len() {
        parameters[i].text()
    } else {
        None
    }
}

/// The text at a position of a parameter list, where it is not empty.
pub open spec fn filled_text_at(parameters: Seq<AtParameterModel>, i: int) -> Option<Seq<char>> {
    match text_at(parameters, i) {
        Some(t) => if parameters[i]->Value_0.len() > 0 {
            Some(t)
        } else {
            None
        },
        None => None,
    }
}

/// Reads the number at a position of a parameter list.
pub fn param_number(parameters: &[AtParameter], i: usize) -> (r: Option<u32>)
    ensures
        r == number_at(models::seq_views(parameters@), i as int),
{
    if i < parameters.len() {
        parameters[i].as_u32()
    } else {
        None
    }
}

/// Reads the text at a position of a parameter list.
pub fn param_text(parameters: &[AtParameter], i: usize) -> (r: Option<&str>)
    ensures
        models::opt_view(r) == text_at(models::seq_views(parameters@), i as int),
{
    if i < parameters.len() {
        parameters[i].as_str()
    } else {
        None
    }
}

/// Reads the text at a position of a parameter list, where it is not empty.
fn nonempty_param_text(parameters: &[AtParameter], i: usize) -> (r: Option<&str>)
    ensures
        models::opt_view(r) == filled_text_at(models::seq_views(parameters@), i as int),
{
    if i < parameters.len() {
        match parameters[i].as_value() {
            Some(value) => if value.len() > 0 {
                parameters[i].as_str()
            } else {
                None
            },
            None => None,
        }
    } else {
        None
    }
}

/// An owned copy of an optional text.
fn owned_option(t: Option<&str>) -> (r: Option<String>)
    ensures
        models::opt_view(r) == models::opt_view(t),
{
    match t {
        Some(t) => Some(text::owned(t)),
        None => None,
    }
}

// ---------------------------------------------------------------------------
// The call list
// ---------------------------------------------------------------------------

/// One entry of a call list.
#[derive(Debug, Clone, PartialEq, Eq)]
pub struct CallInfo {
    /// Call index.
    pub index: u32,
    /// Call direction.
    pub direction: CallInfoDirection,
    /// Call status.
    pub status: CallInfoStatus,
    /// Mode.
    pub mode: CallInfoMode,
    /// Conference membership.
    pub multi_party: CallInfoMultiParty,
    /// Number of the remote party, if known.
    pub number: Option<String>,
    /// Address type, if known.
    pub kind: Option<u8>,
}

/// The model of a [`CallInfo`].
#[verifier::ext_equal]
pub struct CallInfoModel {
    pub index: u32,
    pub direction: CallInfoDirection,
    pub status: CallInfoStatus,
    pub mode: CallInfoMode,
    pub multi_party: CallInfoMultiParty,
    pub number: Option<Seq<char>>,
    pub kind: Option<u8>,
}

impl View for CallInfo {
    type V = CallInfoModel;

    open spec fn view(&self) -> CallInfoModel {
        CallInfoModel {
            index: self.index,
            direction: self.direction,
            status: self.status,
            mode: self.mode,
            multi_party: self.multi_party,
            number: models::opt_view(self.number),
            kind: self.kind,
        }
    }
}

/// An entry of a call list in a response.
pub open spec fn call_text(call: CallInfoModel) -> Seq<char> {
    let fields = seq![
        text::decimal(call.index as nat),
        text::decimal(call.direction.number() as nat),
        text::decimal(call.status.number() as nat),
        text::decimal(call.mode.number() as nat),
        text::decimal(call.multi_party.number() as nat),
    ];
    let with_number = match call.number {
        Some(number) => fields.push(text::quoted(number)),
        None => fields,
    };
    let with_kind = match call.kind {
        Some(kind) => with_number.push(text::decimal(kind as nat)),
        None => with_number,
    };
    "+CLCC: "@ + text::joined(with_kind)
}

/// A text in double quotes, as a text of its own.
fn quoted_text(s: &str) -> (r: String)
    ensures
        r@ == text::quoted(s@),
{
    let mut r = text::owned("");
    proof {
        reveal_strlit("");
    }
    text::append_quoted(&mut r, s);
    assert(r@ =~= text::quoted(s@));
    r
}

impl CallInfo {
    /// The entry in a response.
    pub fn to_call_text(&self) -> (r: String)
        ensures
            r@ == call_text(self@),
    {
        let mut fields: Vec<String> = Vec::new();
        fields.push(text::decimal_text(self.index as u64));
        fields.push(text::decimal_text(self.direction.to_value() as u64));
        fields.push(text::decimal_text(self.status.to_value() as u64));
        fields.push(text::decimal_text(self.mode.to_value() as u64));
        fields.push(text::decimal_text(self.multi_party.to_value() as u64));
        let ghost five = models::seq_views(fields@);
        assert(five =~= seq![
            text::decimal(self.index as nat),
            text::decimal(self.direction.number() as nat),
            text::decimal(self.status.number() as nat),
            text::decimal(self.mode.number() as nat),
            text::decimal(self.multi_party.number() as nat),
        ]);
        if let Some(number) = &self.number {
            fields.push(quoted_text(number.as_str()));
            assert(models::seq_views(fields@) =~= five.push(text::quoted(number@)));
        }
        let ghost named = models::seq_views(fields@);
        if let Some(kind) = self.kind {
            fields.push(text::decimal_text(kind as u64));
            assert(models::seq_views(fields@) =~= named.push(text::decimal(kind as nat)));
        }
        let mut r = text::owned("+CLCC: ");
        r.append(text::join(&fields).as_str());
        r
    }
}

/// The call that a response describes.
pub open spec fn call_of(response: AtResponseModel) -> Option<CallInfoModel> {
    let p = response.parameters;
    if response.code != "+CLCC"@ {
        None
    } else {
        match (
            number_at(p, 0),
            number_at(p, 1),
            number_at(p, 2),
            number_at(p, 3),
            number_at(p, 4),
        ) {
            (Some(index), Some(direction), Some(status), Some(mode), Some(multi_party)) => match (
                CallInfoDirection::numbered(direction),
                CallInfoStatus::numbered(status),
                CallInfoMode::numbered(mode),
                CallInfoMultiParty::numbered(multi_party),
            ) {
                (Some(direction), Some(status), Some(mode), Some(multi_party)) => Some(
                    CallInfoModel {
                        index,
                        direction,
                        status,
                        mode,
                        multi_party,
                        number: text_at(p, 5),
                        kind: match number_at(p, 6) {
                            Some(kind) => Some(kind as u8),
                            None => None,
                        },
                    },
                ),
                _ => None,
            },
            _ => None,
        }
    }
}

/// Reads the call that a response describes.
pub fn parse_one_call_info(response: &AtResponse) -> (r: Option<CallInfo>)
    ensures
        models::opt_view(r) == call_of(response@),
{
    if !text::same_text(response.code.as_str(), "+CLCC") {
        return None;
    }
    let p = response.parameters.as_slice();
    match (
        param_number(p, 0),
        param_number(p, 1),
        param_number(p, 2),
        param_number(p, 3),
        param_number(p, 4),
    ) {
        (Some(index), Some(direction), Some(status), Some(mode), Some(multi_party)) => match (
            CallInfoDirection::from_value(direction),
            CallInfoStatus::from_value(status),
            CallInfoMode::from_value(mode),
            CallInfoMultiParty::from_value(multi_party),
        ) {
            (Some(direction), Some(status), Some(mode), Some(multi_party)) => Some(
                CallInfo {
                    index,
                    direction,
                    status,
                    mode,
                    multi_party,
                    number: owned_option(param_text(p, 5)),
                    kind: match param_number(p, 6) {
                        Some(kind) => Some(kind as u8),
                        None => None,
                    },
                },
            ),
            _ => None,
        },
        _ => None,
    }
}

/// The calls that responses describe.
pub open spec fn calls_of(responses: Seq<AtResponseModel>) -> Seq<CallInfoModel>
    decreases responses.len(),
{
    if responses.len() == 0 {
        seq![]
    } else {
        let before = calls_of(responses.drop_last());
        match call_of(responses.last()) {
            Some(call) => before.push(call),
            None => before,
        }
    }
}

/// Reads the calls that the responses to a completed `AT+CLCC` describe.
pub fn parse_call_infos(responses: &[AtResponse]) -> (r: Vec<CallInfo>)
    ensures
        models::seq_views(r@) == calls_of(models::seq_views(responses@)),
{
    broadcast use models::lemma_seq_views_push;

    let ghost all = models::seq_views(responses@);
    let mut r: Vec<CallInfo> = Vec::new();
    let mut i: usize = 0;
    assert(all.take(0) =~= seq![]);
    assert(models::seq_views(r@) =~= calls_of(all.take(0)));
    while i < responses.len()
        invariant
            i <= responses@.len(),
            all == models::seq_views(responses@),
            models::seq_views(r@) == calls_of(all.take(i as int)),
        decreases responses@.len() - i,
    {
        assert(all.take(i + 1).drop_last() =~= all.take(i as int));
        assert(all.take(i + 1).last() == responses@[i as int]@);
        if let Some(call) = parse_one_call_info(&responses[i]) {
            r.push(call);
        }
        i = i + 1;
    }
    assert(all.take(i as int) =~= all);
    r
}

/// The operator that responses name: the third parameter of the first
/// `+COPS`.
pub open spec fn operator_of(responses: Seq<AtResponseModel>) -> Option<Seq<char>>
    decreases responses.len(),
{
    if responses.len() == 0 {
        None
    } else if responses[0].code == "+COPS"@ {
        text_at(responses[0].parameters, 2)
    } else {
        operator_of(responses.skip(1))
    }
}

/// Reads the operator that the responses to a completed `AT+COPS?` name.
pub fn parse_network_operator(responses: &[AtResponse]) -> (r: Option<String>)
    ensures
        models::opt_view(r) == operator_of(models::seq_views(responses@)),
{
    let ghost all = models::seq_views(responses@);
    let mut i: usize = 0;
    assert(all.skip(0) =~= all);
    while i < responses.len()
        invariant
            i <= responses@.len(),
            all == models::seq_views(responses@),
            operator_of(all.skip(i as int)) == operator_of(all),
        decreases responses@.len() - i,
    {
        assert(all.skip(i as int)[0] == responses@[i as int]@);
        assert(all.skip(i as int).skip(1) =~= all.skip(i + 1));
        if text::same_text(responses[i].code.as_str(), "+COPS") {
            return owned_option(param_text(responses[i].parameters.as_slice(), 2));
        }
        i = i + 1;
    }
    None
}

// ---------------------------------------------------------------------------
// The caller
// ---------------------------------------------------------------------------

/// Identification of a caller.
#[derive(Debug, Clone, PartialEq, Eq)]
pub struct CallLineIdentification {
    /// Caller number.
    pub number: String,
    /// Address type.
    pub kind: u32,
    /// Subaddress, if known.
    pub subaddr: Option<String>,
    /// Subaddress type, if known.
    pub satype: Option<u32>,
    /// Name, if known.
    pub alpha: Option<String>,
    /// Validity of the identification, if known.
    pub cli_validity: Option<u32>,
}

/// The model of a [`CallLineIdentification`].
#[verifier::ext_equal]
pub struct CallerModel {
    pub number: Seq<char>,
    pub kind: u32,
    pub subaddr: Option<Seq<char>>,
    pub satype: Option<u32>,
    pub alpha: Option<Seq<char>>,
    pub cli_validity: Option<u32>,
}

impl View for CallLineIdentification {
    type V = CallerModel;

    open spec fn view(&self) -> CallerModel {
        CallerModel {
            number: self.number@,
            kind: self.kind,
            subaddr: models::opt_view(self.subaddr),
            satype: self.satype,
            alpha: models::opt_view(self.alpha),
            cli_validity: self.cli_validity,
        }
    }
}

/// The number at a position of a parameter list, where the parameter is not
/// empty.
pub open spec fn filled_number_at(parameters: Seq<AtParameterModel>, i: int) -> Option<u32> {
    match filled_text_at(parameters, i) {
        Some(_) => number_at(parameters, i),
        None => None,
    }
}

/// The caller that parameters identify.
pub open spec fn caller_of(p: Seq<AtParameterModel>) -> Result<CallerModel, Seq<char>> {
    match filled_text_at(p, 0) {
        Some(number) => match filled_number_at(p, 1) {
            Some(kind) => Ok(
                CallerModel {
                    number,
                    kind,
                    subaddr: text_at(p, 2),
                    satype: filled_number_at(p, 3),
                    alpha: text_at(p, 4),
                    cli_validity: filled_number_at(p, 5),
                },
            ),
            None => Err("CLIP: missing type"@),
        },
        None => Err("CLIP: missing number"@),
    }
}

/// A field that may be missing: nothing where it is.
pub open spec fn optional_text(t: Option<Seq<char>>) -> Seq<char> {
    match t {
        Some(t) => text::quoted(t),
        None => seq![],
    }
}

/// A number that may be missing: nothing where it is.
pub open spec fn optional_number(n: Option<u32>) -> Seq<char> {
    match n {
        Some(n) => text::decimal(n as nat),
        None => seq![],
    }
}

/// How many of the optional fields are written: none after the last one that
/// is known.
pub open spec fn optional_count(caller: CallerModel) -> int {
    if caller.cli_validity is Some {
        4
    } else if caller.alpha is Some {
        3
    } else if caller.satype is Some {
        2
    } else if caller.subaddr is Some {
        1
    } else {
        0
    }
}

/// The fields of a caller, texts in double quotes.
pub open spec fn caller_fields(caller: CallerModel) -> Seq<Seq<char>> {
    seq![
        text::quoted(caller.number),
        text::decimal(caller.kind as nat),
        optional_text(caller.subaddr),
        optional_number(caller.satype),
        optional_text(caller.alpha),
        optional_number(caller.cli_validity),
    ].take(2 + optional_count(caller))
}

fn quoted_option(t: &Option<String>) -> (r: String)
    ensures
        r@ == optional_text(models::opt_view(*t)),
{
    match t {
        Some(t) => quoted_text(t.as_str()),
        None => {
            proof {
                reveal_strlit("");
                assert(""@ =~= seq![]);
            }
            text::owned("")
        },
    }
}

fn decimal_option(n: Option<u32>) -> (r: String)
    ensures
        r@ == optional_number(n),
{
    match n {
        Some(n) => text::decimal_text(n as u64),
        None => {
            proof {
                reveal_strlit("");
                assert(""@ =~= seq![]);
            }
            text::owned("")
        },
    }
}

fn filled_number(parameters: &[AtParameter], i: usize) -> (r: Option<u32>)
    ensures
        r == filled_number_at(models::seq_views(parameters@), i as int),
{
    match nonempty_param_text(parameters, i) {
        Some(_) => param_number(parameters, i),
        None => None,
    }
}

impl CallLineIdentification {
    /// Reads the parameters of a `+CLIP` response.
    pub fn parse_from(parameters: &[AtParameter]) -> (r: Result<Self, AtParsingError>)
        ensures
            at::outcome_view(r) == caller_of(models::seq_views(parameters@)),
    {
        let number = match nonempty_param_text(parameters, 0) {
            Some(number) => text::owned(number),
            None => {
                return Err(AtParsingError(text::owned("CLIP: missing number")));
            },
        };
        let kind: u32 = match filled_number(parameters, 1) {
            Some(kind) => kind,
            None => {
                return Err(AtParsingError(text::owned("CLIP: missing type")));
            },
        };
        Ok(
            CallLineIdentification {
                number,
                kind,
                subaddr: owned_option(param_text(parameters, 2)),
                satype: filled_number(parameters, 3),
                alpha: owned_option(param_text(parameters, 4)),
                cli_validity: filled_number(parameters, 5),
            },
        )
    }

    /// The parameters of a `+CLIP` response. The number, the subaddress and
    /// the name are in double quotes: a reader of quoted strings gets nothing
    /// from a bare value. Trailing fields that are not known are left out.
    pub fn to_clip_string(&self) -> (r: String)
        ensures
            r@ == text::joined(caller_fields(self@)),
    {
        let mut fields: Vec<String> = Vec::new();
        fields.push(quoted_text(self.number.as_str()));
        fields.push(text::decimal_text(self.kind as u64));
        let count: usize = if self.cli_validity.is_some() {
            4
        } else if self.alpha.is_some() {
            3
        } else if self.satype.is_some() {
            2
        } else if self.subaddr.is_some() {
            1
        } else {
            0
        };
        if count > 0 {
            fields.push(quoted_option(&self.subaddr));
        }
        if count > 1 {
            fields.push(decimal_option(self.satype));
        }
        if count > 2 {
            fields.push(quoted_option(&self.alpha));
        }
        if count > 3 {
            fields.push(decimal_option(self.cli_validity));
        }
        assert(models::seq_views(fields@) =~= caller_fields(self@));
        text::join(&fields)
    }
}

} // verus!
