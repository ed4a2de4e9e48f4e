//! The exchange with the path-finding service: the request that is sent for a
//! payment, and what the service's answer amounts to.
//!
//! Sending and receiving are left to the caller. This module writes the
//! request's text and decides on the parts of a response.

use vstd::prelude::*;
use vstd::string::StringExecFns;

use crate::address::amount_number;
use crate::address::parse_amount;
use crate::flow_matrix::TransferStep;
use crate::text::json_string;
use crate::text::json_string_of;
use crate::vertices::texts_of;
use crate::word::Word;

verus! {

/// What is asked of the path-finding service: a path from `from` to `to` that
/// carries `target_flow`. An option that is absent restricts nothing.
#[derive(Debug)]
pub struct FindPathParams {
    pub from: String,
    pub to: String,
    pub target_flow: String,
    pub use_wrapped_balances: Option<bool>,
    pub from_tokens: Option<Vec<String>>,
    pub to_tokens: Option<Vec<String>>,
    pub exclude_from_tokens: Option<Vec<String>>,
    pub exclude_to_tokens: Option<Vec<String>>,
}

/// One hop of the path that the service found.
#[derive(Debug)]
pub struct Transfer {
    pub from: String,
    pub to: String,
    pub token_owner: String,
    pub value: String,
}

/// The path that the service found, and the flow that it can carry at most.
#[derive(Debug)]
pub struct PathfindingResult {
    pub max_flow: String,
    pub transfers: Vec<Transfer>,
}

/// The error that the service reports in place of a path.
#[derive(Debug)]
pub struct RpcError {
    pub code: i32,
    pub message: String,
}

/// Why no path was obtained.
#[derive(Debug)]
pub enum PathError {
    /// The service was not reached, or answered with a status that is no
    /// success; the status is there where an answer came.
    Transport { status: Option<u16> },
    /// The service reported an error of its own.
    Rpc { code: i32, message: String },
    /// The answer held neither a path nor an error.
    MalformedResponse,
}

/// What the parameters are to the contracts: the texts of their parts.
pub struct ParamsView {
    pub from: Seq<char>,
    pub to: Seq<char>,
    pub target_flow: Seq<char>,
    pub use_wrapped_balances: Option<bool>,
    pub from_tokens: Option<Seq<Seq<char>>>,
    pub to_tokens: Option<Seq<Seq<char>>>,
    pub exclude_from_tokens: Option<Seq<Seq<char>>>,
    pub exclude_to_tokens: Option<Seq<Seq<char>>>,
}

/// The texts of an optional list of tokens.
pub open spec fn tokens_view(tokens: Option<Vec<String>>) -> Option<Seq<Seq<char>>> {
    match tokens {
        None => None,
        Some(list) => Some(texts_of(list@)),
    }
}

impl View for FindPathParams {
    type V = ParamsView;

    open spec fn view(&self) -> ParamsView {
        ParamsView {
            from: self.from@,
            to: self.to@,
            target_flow: self.target_flow@,
            use_wrapped_balances: self.use_wrapped_balances,
            from_tokens: tokens_view(self.from_tokens),
            to_tokens: tokens_view(self.to_tokens),
            exclude_from_tokens: tokens_view(self.exclude_from_tokens),
            exclude_to_tokens: tokens_view(self.exclude_to_tokens),
        }
    }
}

/// Whether a request may be made of the parameters: source and sink are not
/// empty, and the flow asked for is a positive amount.
pub open spec fn valid_params(params: ParamsView) -> bool {
    &&& params.from.len() > 0
    &&& params.to.len() > 0
    &&& amount_number(params.target_flow) is Some
    &&& amount_number(params.target_flow) != Some(0nat)
}

/// Whether a status of the transport reports success.
pub open spec fn is_success(status: u16) -> bool {
    200 <= status <= 299
}

/// Each of the texts as a JSON string.
pub open spec fn quoted_texts(texts: Seq<Seq<char>>) -> Seq<Seq<char>> {
    Seq::new(texts.len(), |i: int| json_string_of(texts[i]))
}

/// Each text of an optional list as a JSON string.
pub open spec fn quoted_tokens(tokens: Option<Seq<Seq<char>>>) -> Option<Seq<Seq<char>>> {
    match tokens {
        None => None,
        Some(list) => Some(quoted_texts(list)),
    }
}

/// The parameters with each of their texts as a JSON string.
pub open spec fn quoted_params(params: ParamsView) -> ParamsView {
    ParamsView {
        from: json_string_of(params.from),
        to: json_string_of(params.to),
        target_flow: json_string_of(params.target_flow),
        use_wrapped_balances: params.use_wrapped_balances,
        from_tokens: quoted_tokens(params.from_tokens),
        to_tokens: quoted_tokens(params.to_tokens),
        exclude_from_tokens: quoted_tokens(params.exclude_from_tokens),
        exclude_to_tokens: quoted_tokens(params.exclude_to_tokens),
    }
}

/// The first `upto` items with commas between them.
pub open spec fn joined(items: Seq<Seq<char>>, upto: int) -> Seq<char>
    decreases upto,
{
    if upto <= 0 {
        Seq::empty()
    } else if upto == 1 {
        items[0]
    } else {
        joined(items, upto - 1) + ","@ + items[upto - 1]
    }
}

/// The JSON text of an optional list of JSON values: `null` where it is
/// absent, and else the array of the values.
pub open spec fn tokens_text(tokens: Option<Seq<Seq<char>>>) -> Seq<char> {
    match tokens {
        None => "null"@,
        Some(list) => "["@ + joined(list, list.len() as int) + "]"@,
    }
}

/// The JSON text of an optional flag.
pub open spec fn flag_text(flag: Option<bool>) -> Seq<char> {
    match flag {
        None => "null"@,
        Some(true) => "true"@,
        Some(false) => "false"@,
    }
}

/// The text of the request for a path, of parameters whose texts are JSON
/// strings already: one call of the service's method `circlesV2_findPath`,
/// with the parameters under the names that the service knows them by.
pub open spec fn request_text(quoted: ParamsView) -> Seq<char> {
    "{\"id\":1,\"jsonrpc\":\"2.0\",\"method\":\"circlesV2_findPath\",\"params\":[{\"ExcludedFromTokens\":"@
        + tokens_text(quoted.exclude_from_tokens) + ",\"ExcludedToTokens\":"@ + tokens_text(
        quoted.exclude_to_tokens,
    ) + ",\"FromTokens\":"@ + tokens_text(quoted.from_tokens) + ",\"Sink\":"@ + quoted.to
        + ",\"Source\":"@ + quoted.from + ",\"TargetFlow\":"@ + quoted.target_flow
        + ",\"ToTokens\":"@ + tokens_text(quoted.to_tokens) + ",\"WithWrap\":"@ + flag_text(
        quoted.use_wrapped_balances,
    ) + "}]}"@
}

/// Whether a request may be made of the parameters.
pub fn check_params(params: &FindPathParams) -> (valid: bool)
    ensures
        valid == valid_params(params@),
{
    if params.from.as_str().unicode_len() == 0 || params.to.as_str().unicode_len() == 0 {
        return false;
    }
    match parse_amount(params.target_flow.as_str()) {
        Some(flow) => !flow.same(&Word::zero()),
        None => false,
    }
}

/// A text as a JSON string.
fn quoted(text: &str) -> (written: String)
    ensures
        written@ == json_string_of(text@),
{
    match json_string(text) {
        Ok(written) => written,
        Err(_) => String::new(),
    }
}

/// Each text of an optional list as a JSON string.
fn quote_tokens(tokens: &Option<Vec<String>>) -> (written: Option<Vec<String>>)
    ensures
        tokens_view(written) == quoted_tokens(tokens_view(*tokens)),
{
    match tokens {
        None => None,
        Some(list) => {
            let mut written: Vec<String> = Vec::new();
            let mut i: usize = 0;
            while i < list.len()
                invariant
                    i <= list@.len(),
                    written@.len() == i,
                    forall|j: int|
                        0 <= j < i ==> (#[trigger] written@[j])@ == json_string_of(list@[j]@),
                decreases list@.len() - i,
            {
                written.push(quoted(list[i].as_str()));
                i += 1;
            }
            assert(texts_of(written@) =~= quoted_texts(texts_of(list@)));
            Some(written)
        },
    }
}

/// The parameters with each of their texts as a JSON string.
pub fn quote_params(params: &FindPathParams) -> (written: FindPathParams)
    ensures
        written@ == quoted_params(params@),
{
    FindPathParams {
        from: quoted(params.from.as_str()),
        to: quoted(params.to.as_str()),
        target_flow: quoted(params.target_flow.as_str()),
        use_wrapped_balances: params.use_wrapped_balances,
        from_tokens: quote_tokens(&params.from_tokens),
        to_tokens: quote_tokens(&params.to_tokens),
        exclude_from_tokens: quote_tokens(&params.exclude_from_tokens),
        exclude_to_tokens: quote_tokens(&params.exclude_to_tokens),
    }
}

/// An optional list of JSON values as JSON text.
fn write_tokens(tokens: &Option<Vec<String>>) -> (written: String)
    ensures
        written@ == tokens_text(tokens_view(*tokens)),
{
    match tokens {
        None => String::from_str("null"),
        Some(list) => {
            let ghost items = texts_of(list@);
            let mut written = String::from_str("[");
            let mut i: usize = 0;
            while i < list.len()
                invariant
                    i <= list@.len(),
                    items == texts_of(list@),
                    written@ == "["@ + joined(items, i as int),
                decreases list@.len() - i,
            {
                if i > 0 {
                    written.append(",");
                }
                written.append(list[i].as_str());
                proof {
                    assert(items[i as int] == list@[i as int]@);
                    assert(written@ =~= "["@ + joined(items, i + 1));
                }
                i += 1;
            }
            written.append("]");
            written
        },
    }
}

/// An optional flag as JSON text.
fn write_flag(flag: Option<bool>) -> (written: String)
    ensures
        written@ == flag_text(flag),
{
    match flag {
        None => String::from_str("null"),
        Some(true) => String::from_str("true"),
        Some(false) => String::from_str("false"),
    }
}

/// Writes the request for a path, of parameters whose texts are JSON strings
/// already.
pub fn write_request(quoted: &FindPathParams) -> (body: String)
    ensures
        body@ == request_text(quoted@),
{
    let mut body = String::from_str(
        "{\"id\":1,\"jsonrpc\":\"2.0\",\"method\":\"circlesV2_findPath\",\"params\":[{\"ExcludedFromTokens\":",
    );
    body.append(write_tokens(&quoted.exclude_from_tokens).as_str());
    body.append(",\"ExcludedToTokens\":");
    body.append(write_tokens(&quoted.exclude_to_tokens).as_str());
    body.append(",\"FromTokens\":");
    body.append(write_tokens(&quoted.from_tokens).as_str());
    body.append(",\"Sink\":");
    body.append(quoted.to.as_str());
    body.append(",\"Source\":");
    body.append(quoted.from.as_str());
    body.append(",\"TargetFlow\":");
    body.append(quoted.target_flow.as_str());
    body.append(",\"ToTokens\":");
    body.append(write_tokens(&quoted.to_tokens).as_str());
    body.append(",\"WithWrap\":");
    body.append(write_flag(quoted.use_wrapped_balances).as_str());
    body.append("}]}");
    body
}

/// Writes the request for a path: each text of the parameters becomes a JSON
/// string, and the request is written of those.
pub fn request_body(params: &FindPathParams) -> (body: String)
    requires
        valid_params(params@),
    ensures
        body@ == request_text(quoted_params(params@)),
{
    let quoted = quote_params(params);
    write_request(&quoted)
}

/// What a response of the service amounts to. A status that is no success is a
/// failure of the transport, whatever else arrived. Else the path is handed
/// on where there is one; where there is none, the service's error is, and a
/// response with neither is malformed.
pub fn interpret_response(
    status: u16,
    result: Option<PathfindingResult>,
    error: Option<RpcError>,
) -> (outcome: Result<PathfindingResult, PathError>)
    ensures
        outcome == (if !is_success(status) {
            Err(PathError::Transport { status: Some(status) })
        } else {
            match (result, error) {
                (Some(path), _) => Ok(path),
                (None, Some(reported)) => Err(
                    PathError::Rpc { code: reported.code, message: reported.message },
                ),
                (None, None) => Err(PathError::MalformedResponse),
            }
        }),
{
    if status < 200 || status > 299 {
        return Err(PathError::Transport { status: Some(status) });
    }
    match result {
        Some(path) => Ok(path),
        None => match error {
            Some(reported) => Err(PathError::Rpc { code: reported.code, message: reported.message }),
            None => Err(PathError::MalformedResponse),
        },
    }
}

/// The steps of a path, as the flow matrix is built from them.
pub open spec fn steps_of(transfers: Seq<Transfer>) -> Seq<TransferStep> {
    Seq::new(
        transfers.len(),
        |i: int|
            TransferStep {
                from: transfers[i].from,
                to: transfers[i].to,
                token_owner: transfers[i].token_owner,
                value: transfers[i].value,
            },
    )
}

/// Hands the transfers of a path on as the steps that the flow matrix is built
/// from, unchanged and in their order.
pub fn transfer_steps(path: &PathfindingResult) -> (steps: Vec<TransferStep>)
    ensures
        steps@ == steps_of(path.transfers@),
{
    let mut steps: Vec<TransferStep> = Vec::new();
    let mut i: usize = 0;
    while i < path.transfers.len()
        invariant
            i <= path.transfers@.len(),
            steps@.len() == i,
            forall|j: int| 0 <= j < i ==> steps@[j] == steps_of(path.transfers@)[j],
        decreases path.transfers@.len() - i,
    {
        let transfer = &path.transfers[i];
        steps.push(
            TransferStep {
                from: transfer.from.clone(),
                to: transfer.to.clone(),
                token_owner: transfer.token_owner.clone(),
                value: transfer.value.clone(),
            },
        );
        i += 1;
    }
    assert(steps@ =~= steps_of(path.transfers@));
    steps
}

} // verus!
