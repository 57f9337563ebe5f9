//! Listing the documents of the source, as a state machine. Each step says
//! which request to send; the reply to it gives the next step.

use crate::config::{credentials_of, Nacos, NacosView};
use crate::document::{lookup, nodes_view, same_text, Doc, DocumentNode, ScalarView};
use crate::error::{ErrorKind, SyncError, SyncErrorView};
use crate::json::{json_parse, json_parsed, json_view};
use vstd::prelude::*;
use vstd::string::StringExecFns;

verus! {

/// The reply to a request.
#[derive(Debug, PartialEq, Eq)]
pub struct HttpReply {
    /// The status code.
    pub status: u16,
    /// The status as the transport displays it.
    pub status_text: String,
    pub body: String,
}

/// A step of the listing.
#[derive(Debug, PartialEq, Eq)]
pub enum ListingStep {
    /// Post the name and the password as a form to `url`.
    Login { url: String, username: String, password: String },
    /// Get `url`, with the token in the header `accessToken`.
    List { url: String, access_token: String },
    /// The listing is done: these are the documents to copy.
    Done { data_ids: Vec<String> },
    /// The listing failed.
    Failed { error: SyncError },
}

/// A reply as a mathematical value.
pub struct ReplyView {
    pub status: int,
    pub status_text: Seq<char>,
    pub body: Seq<char>,
}

/// A step as a mathematical value.
pub enum StepView {
    Login { url: Seq<char>, username: Seq<char>, password: Seq<char> },
    List { url: Seq<char>, access_token: Seq<char> },
    Done { data_ids: Seq<Seq<char>> },
    Failed { error: SyncErrorView },
}

impl View for HttpReply {
    type V = ReplyView;

    open spec fn view(&self) -> ReplyView {
        ReplyView { status: self.status as int, status_text: self.status_text@, body: self.body@ }
    }
}

/// The texts that a sequence of texts stands for.
pub open spec fn texts_view(texts: Seq<String>) -> Seq<Seq<char>> {
    Seq::new(texts.len(), |i: int| texts[i]@)
}

impl View for ListingStep {
    type V = StepView;

    open spec fn view(&self) -> StepView {
        match self {
            ListingStep::Login { url, username, password } => StepView::Login {
                url: url@,
                username: username@,
                password: password@,
            },
            ListingStep::List { url, access_token } => StepView::List {
                url: url@,
                access_token: access_token@,
            },
            ListingStep::Done { data_ids } => StepView::Done { data_ids: texts_view(data_ids@) },
            ListingStep::Failed { error } => StepView::Failed { error: error@ },
        }
    }
}

/// What a reply or the words of the error that stood in its place is, as a
/// mathematical value.
pub open spec fn reply_view(reply: Result<HttpReply, String>) -> Result<ReplyView, Seq<char>> {
    match reply {
        Ok(reply) => Ok(reply@),
        Err(words) => Err(words@),
    }
}

/// Where to log in.
pub open spec fn login_url(addr: Seq<char>) -> Seq<char> {
    "http://"@ + addr + "/nacos/v1/auth/users/login?message=true"@
}

/// Where to ask for the documents of a namespace.
pub open spec fn list_url(addr: Seq<char>, namespace: Seq<char>, access_token: Seq<char>) -> Seq<
    char,
> {
    "http://"@ + addr
        + "/nacos/v1/cs/configs?dataId=&group=&appName=&config_tags=&search=accurate&message=true&tenant="@
        + namespace + "&accessToken="@ + access_token + "&pageNo=1&pageSize=10000"@
}

/// Whether a status code tells of success: 200 to 299.
pub open spec fn succeeded(status: int) -> bool {
    200 <= status < 300
}

/// An authentication failure with the given words.
pub open spec fn login_failure(words: Seq<char>) -> StepView {
    StepView::Failed { error: SyncErrorView { kind: ErrorKind::AuthenticationFailure, detail: words } }
}

/// A listing failure with the given words.
pub open spec fn list_failure(words: Seq<char>) -> StepView {
    StepView::Failed { error: SyncErrorView { kind: ErrorKind::ListingFailure, detail: words } }
}

/// The words for an endpoint that lacks a name or a password.
pub open spec fn credentials_words() -> Seq<char> {
    "the endpoint has no username or no password"@
}

/// The words for a login reply that holds no token.
pub open spec fn token_words() -> Seq<char> {
    "the login reply holds no access token"@
}

/// The first step: to log in, which takes a name and a password.
pub open spec fn first_step(nacos: NacosView) -> StepView {
    match credentials_of(nacos) {
        Some((username, password)) => StepView::Login {
            url: login_url(nacos.addr),
            username,
            password,
        },
        None => login_failure(credentials_words()),
    }
}

/// The token of a login reply: the text under `accessToken`.
pub open spec fn access_token_of(reply: Doc) -> Option<Seq<char>> {
    match reply {
        Doc::Mapping(fields) => match lookup(fields, "accessToken"@) {
            Some(Doc::Scalar(ScalarView::Text(token))) => Some(token),
            _ => None,
        },
        _ => None,
    }
}

/// The identifier of a listed item, where the item is a mapping whose `type`
/// is the text `yaml` and whose `dataId` is a text.
pub open spec fn item_data_id(item: Doc) -> Option<Seq<char>> {
    match item {
        Doc::Mapping(fields) => match (lookup(fields, "type"@), lookup(fields, "dataId"@)) {
            (
                Some(Doc::Scalar(ScalarView::Text(kind))),
                Some(Doc::Scalar(ScalarView::Text(data_id))),
            ) => if kind == "yaml"@ {
                Some(data_id)
            } else {
                None
            },
            _ => None,
        },
        _ => None,
    }
}

/// The identifiers of the items that have one, in the order of the items.
pub open spec fn data_ids_of(items: Seq<Doc>) -> Seq<Seq<char>>
    decreases items.len(),
{
    if items.len() == 0 {
        Seq::empty()
    } else {
        let before = data_ids_of(items.drop_last());
        match item_data_id(items.last()) {
            Some(data_id) => before.push(data_id),
            None => before,
        }
    }
}

/// The documents that a list reply names: those of the items under
/// `pageItems`; none where the reply has no sequence there.
pub open spec fn listed_ids(reply: Doc) -> Seq<Seq<char>> {
    match reply {
        Doc::Mapping(fields) => match lookup(fields, "pageItems"@) {
            Some(Doc::Sequence(items)) => data_ids_of(items),
            _ => Seq::empty(),
        },
        _ => Seq::empty(),
    }
}

/// The step after the body of a login reply was read.
pub open spec fn token_step(nacos: NacosView, parsed: Result<Doc, Seq<char>>) -> StepView {
    match parsed {
        Ok(reply) => match access_token_of(reply) {
            Some(access_token) => StepView::List {
                url: list_url(nacos.addr, nacos.namespace, access_token),
                access_token,
            },
            None => login_failure(token_words()),
        },
        Err(words) => login_failure(words),
    }
}

/// The step after the body of a list reply was read.
pub open spec fn ids_step(parsed: Result<Doc, Seq<char>>) -> StepView {
    match parsed {
        Ok(reply) => StepView::Done { data_ids: listed_ids(reply) },
        Err(words) => list_failure(words),
    }
}

/// The step that follows `step` once the reply to its request is there. A
/// request that was not answered, or not with success, ends the listing as
/// failed; so does a body that cannot be read. A step that sent no request
/// stays as it is.
pub open spec fn next_step(
    step: StepView,
    nacos: NacosView,
    reply: Result<ReplyView, Seq<char>>,
) -> StepView {
    match step {
        StepView::Login { .. } => match reply {
            Err(words) => login_failure(words),
            Ok(reply) => if succeeded(reply.status) {
                token_step(nacos, json_parsed(reply.body))
            } else {
                login_failure("Failed to login to Nacos: "@ + reply.status_text)
            },
        },
        StepView::List { .. } => match reply {
            Err(words) => list_failure(words),
            Ok(reply) => if succeeded(reply.status) {
                ids_step(json_parsed(reply.body))
            } else {
                list_failure("Failed to get sync_config list from Nacos: "@ + reply.status_text)
            },
        },
        _ => step,
    }
}

/// A failed step of the given kind, with the given words.
fn failure(kind: ErrorKind, words: String) -> (step: ListingStep)
    ensures
        step@ == (StepView::Failed { error: SyncErrorView { kind, detail: words@ } }),
{
    ListingStep::Failed { error: SyncError { kind, detail: words } }
}

/// Begins the listing of the documents of `from_nacos`.
pub fn get_all_data_id(from_nacos: &Nacos) -> (step: ListingStep)
    ensures
        step@ == first_step(from_nacos@),
{
    match from_nacos.credentials() {
        Some((username, password)) => {
            let mut url = "http://".to_owned();
            url.append(from_nacos.addr.as_str());
            url.append("/nacos/v1/auth/users/login?message=true");
            ListingStep::Login { url, username: username.clone(), password: password.clone() }
        },
        None => failure(
            ErrorKind::AuthenticationFailure,
            "the endpoint has no username or no password".to_owned(),
        ),
    }
}

/// The token of a login reply.
pub fn access_token(reply: &DocumentNode) -> (token: Option<String>)
    ensures
        match token {
            Some(token) => access_token_of(reply@) == Some(token@),
            None => access_token_of(reply@) is None,
        },
{
    match reply {
        DocumentNode::Mapping(fields) => match fields.get("accessToken") {
            Some(node) => match node.as_str() {
                Ok(token) => Some(token.to_owned()),
                Err(_) => None,
            },
            None => None,
        },
        _ => None,
    }
}

/// The identifier of a listed item, where it has one and is of type `yaml`.
pub fn data_id_of_item(item: &DocumentNode) -> (data_id: Option<String>)
    ensures
        match data_id {
            Some(data_id) => item_data_id(item@) == Some(data_id@),
            None => item_data_id(item@) is None,
        },
{
    match item {
        DocumentNode::Mapping(fields) => {
            let kind = match fields.get("type") {
                Some(node) => match node.as_str() {
                    Ok(kind) => kind,
                    Err(_) => {
                        return None;
                    },
                },
                None => {
                    return None;
                },
            };
            if !same_text(kind, "yaml") {
                return None;
            }
            match fields.get("dataId") {
                Some(node) => match node.as_str() {
                    Ok(data_id) => Some(data_id.to_owned()),
                    Err(_) => None,
                },
                None => None,
            }
        },
        _ => None,
    }
}

/// The documents that a list reply names.
pub fn data_ids(reply: &DocumentNode) -> (data_ids: Vec<String>)
    ensures
        texts_view(data_ids@) == listed_ids(reply@),
{
    let mut found: Vec<String> = Vec::new();
    let items = match reply {
        DocumentNode::Mapping(fields) => match fields.get("pageItems") {
            Some(DocumentNode::Sequence(items)) => items,
            _ => {
                assert(texts_view(found@) =~= Seq::empty());
                return found;
            },
        },
        _ => {
            assert(texts_view(found@) =~= Seq::empty());
            return found;
        },
    };
    let ghost trees = nodes_view(items@);
    let mut index: usize = 0;
    assert(texts_view(found@) =~= data_ids_of(trees.take(0)));
    while index < items.len()
        invariant
            index <= items.len(),
            trees == nodes_view(items@),
            texts_view(found@) == data_ids_of(trees.take(index as int)),
        decreases items.len() - index,
    {
        let ghost before = found@;
        proof {
            assert(trees.take(index + 1).drop_last() =~= trees.take(index as int));
            assert(trees.take(index + 1).last() == items[index as int]@);
        }
        match data_id_of_item(&items[index]) {
            Some(data_id) => {
                found.push(data_id);
                assert(texts_view(found@) =~= texts_view(before).push(data_id@));
            },
            None => {},
        }
        index += 1;
    }
    assert(trees.take(index as int) =~= trees);
    found
}

/// The step after a login reply, made of what the parser made of its body.
pub fn step_from_token(from_nacos: &Nacos, parsed: Result<DocumentNode, String>) -> (step:
    ListingStep)
    ensures
        step@ == token_step(from_nacos@, json_view(parsed)),
{
    match parsed {
        Ok(reply) => match access_token(&reply) {
            Some(token) => {
                let mut url = "http://".to_owned();
                url.append(from_nacos.addr.as_str());
                url.append(
                    "/nacos/v1/cs/configs?dataId=&group=&appName=&config_tags=&search=accurate&message=true&tenant=",
                );
                url.append(from_nacos.namespace.as_str());
                url.append("&accessToken=");
                url.append(token.as_str());
                url.append("&pageNo=1&pageSize=10000");
                ListingStep::List { url, access_token: token }
            },
            None => failure(
                ErrorKind::AuthenticationFailure,
                "the login reply holds no access token".to_owned(),
            ),
        },
        Err(words) => failure(ErrorKind::AuthenticationFailure, words),
    }
}

/// The step after a list reply, made of what the parser made of its body.
pub fn step_from_ids(parsed: Result<DocumentNode, String>) -> (step: ListingStep)
    ensures
        step@ == ids_step(json_view(parsed)),
{
    match parsed {
        Ok(reply) => ListingStep::Done { data_ids: data_ids(&reply) },
        Err(words) => failure(ErrorKind::ListingFailure, words),
    }
}

impl ListingStep {
    /// The step that follows this one, given the reply to its request.
    pub fn advance(self, from_nacos: &Nacos, reply: Result<HttpReply, String>) -> (step:
        ListingStep)
        ensures
            step@ == next_step(self@, from_nacos@, reply_view(reply)),
    {
        match self {
            ListingStep::Login { .. } => match reply {
                Err(words) => failure(ErrorKind::AuthenticationFailure, words),
                Ok(reply) => if 200 <= reply.status && reply.status < 300 {
                    step_from_token(from_nacos, json_parse(reply.body.as_str()))
                } else {
                    let mut words = "Failed to login to Nacos: ".to_owned();
                    words.append(reply.status_text.as_str());
                    failure(ErrorKind::AuthenticationFailure, words)
                },
            },
            ListingStep::List { .. } => match reply {
                Err(words) => failure(ErrorKind::ListingFailure, words),
                Ok(reply) => if 200 <= reply.status && reply.status < 300 {
                    step_from_ids(json_parse(reply.body.as_str()))
                } else {
                    let mut words = "Failed to get sync_config list from Nacos: ".to_owned();
                    words.append(reply.status_text.as_str());
                    failure(ErrorKind::ListingFailure, words)
                },
            },
            other => other,
        }
    }
}

} // verus!
