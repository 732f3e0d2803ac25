//! The gateway's two routes, as steps between upstream calls.
//!
//! A handler is called once when a request arrives and once more for each
//! upstream call that it asked for. Each time it returns the stage it has
//! reached and what is to happen next: another call, or the reply.

use vstd::prelude::*;
use crate::config::{Config, Provider};
use crate::json::{
    doc_of, docs_of, field, json_list, json_member, json_record, json_string,
    json_text, named_docs, record_of, render_json, rendered, JsonDoc,
};
use crate::reply::{error_reply, error_reply_view, forward_failure, relay_completion, relayed, HttpReply, ReplyView};
use crate::resolve::{first_seen, gathered, offered_before};
use crate::text::join;
use crate::upstream::{UpstreamOutcome, UpstreamRequest};

verus! {

/// What the host is to do next.
#[derive(Debug, PartialEq, Eq)]
pub enum Action {
    /// Make this call and come back with its outcome.
    Call(UpstreamRequest),
    /// Send this reply; the request is done.
    Respond(HttpReply),
}

/// How far the handling of one request has come.
#[derive(Debug, PartialEq, Eq)]
pub enum Stage {
    /// The request has arrived and nothing was done.
    Received,
    /// Providers are being asked for their models. `outcomes` holds one entry
    /// for each provider before the one that is being asked.
    Listing { outcomes: Vec<UpstreamOutcome> },
    /// The completion request is with a provider.
    Forwarding,
    /// The reply was given.
    Finished,
}

/// `outcomes`, continued with an entry for each provider that follows and
/// need not be asked, up to the next one that must be, or to the end.
pub open spec fn settled(
    providers: Seq<Provider>,
    outcomes: Seq<UpstreamOutcome>,
) -> Seq<UpstreamOutcome>
    decreases providers.len() - outcomes.len(),
{
    if outcomes.len() < providers.len() && providers[outcomes.len() as int].models is Some {
        settled(providers, outcomes.push(UpstreamOutcome::NotAsked))
    } else {
        outcomes
    }
}

/// The outcomes known once a handler is entered at `stage` with `outcome`;
/// `None` at a stage in which no listing is under way.
pub open spec fn reported(stage: Stage, outcome: UpstreamOutcome) -> Option<Seq<UpstreamOutcome>> {
    match stage {
        Stage::Received => Some(Seq::empty()),
        Stage::Listing { outcomes } => Some(outcomes@.push(outcome)),
        _ => None,
    }
}

/// The reply to a handler that is entered after its request is done.
pub open spec fn out_of_turn() -> ReplyView {
    error_reply_view(500, "No request is being handled"@, "internal_error"@)
}

/// The handler goes on to ask the provider at position `outcomes.len()`.
pub open spec fn asks_next(config: Config, outcomes: Seq<UpstreamOutcome>, next: Stage, action: Action) -> bool {
    &&& next matches Stage::Listing { outcomes: kept }
    &&& kept@ == outcomes
    &&& action matches Action::Call(request)
    &&& config.providers@[outcomes.len() as int].listing_call() == Some(request@)
}

/// The handler ends with `reply`.
pub open spec fn ends_with(reply: ReplyView, next: Stage, action: Action) -> bool {
    &&& next is Finished
    &&& action matches Action::Respond(given)
    &&& given@ == reply
}

/// The document `{"object": "list", "data": [..]}`.
pub open spec fn catalog_doc(records: Seq<JsonDoc>) -> JsonDoc {
    JsonDoc::Record(map!["object"@ => JsonDoc::Text("list"@), "data"@ => JsonDoc::List(records)])
}

/// The reply that lists the given records.
pub open spec fn catalog_reply(records: Seq<JsonDoc>) -> ReplyView {
    match rendered(catalog_doc(records)) {
        Some(bytes) => ReplyView { status: 200, content_type: "application/json"@, body: bytes },
        None => error_reply_view(
            500,
            "Failed to fetch models: the list could not be written"@,
            "internal_error"@,
        ),
    }
}

/// One step of the listing route: every provider that must be asked is asked,
/// in order, and then the reply lists all records, each identifier once.
pub open spec fn lists_models(
    config: Config,
    stage: Stage,
    outcome: UpstreamOutcome,
    next: Stage,
    action: Action,
) -> bool {
    match reported(stage, outcome) {
        Some(outcomes) => {
            let all = settled(config.providers@, outcomes);
            if all.len() < config.providers@.len() {
                asks_next(config, all, next, action)
            } else {
                ends_with(
                    catalog_reply(first_seen(gathered(config.offered_records(all)))),
                    next,
                    action,
                )
            }
        },
        None => ends_with(out_of_turn(), next, action),
    }
}

/// The model that a completion request names: its member `model`, where that
/// is a string.
pub open spec fn named_model(body: JsonDoc) -> Option<Seq<char>> {
    body.text_member("model"@)
}

/// The reply to a request that names no model.
pub open spec fn missing_model() -> ReplyView {
    error_reply_view(400, "Missing model field"@, "bad_request"@)
}

/// The reply to a request for a model that no provider serves.
pub open spec fn model_not_found(model: Seq<char>) -> ReplyView {
    error_reply_view(404, "Model '"@ + model + "' not found"@, "not_found"@)
}

/// The reply to a request whose body cannot be written out again.
pub open spec fn body_not_written() -> ReplyView {
    error_reply_view(500, forward_failure("the request body could not be written"@), "internal_error"@)
}

/// With all listings in, the request goes to the first provider that offers
/// its model, or ends at once.
pub open spec fn forwards(
    config: Config,
    body: JsonDoc,
    outcomes: Seq<UpstreamOutcome>,
    next: Stage,
    action: Action,
) -> bool {
    let lists = config.offered(outcomes);
    match named_model(body) {
        None => ends_with(missing_model(), next, action),
        Some(model) => if !offered_before(lists, lists.len() as int, model) {
            ends_with(model_not_found(model), next, action)
        } else {
            match rendered(body) {
                None => ends_with(body_not_written(), next, action),
                Some(bytes) => {
                    &&& next is Forwarding
                    &&& action matches Action::Call(request)
                    &&& forall|i: int|
                        0 <= i < lists.len() && #[trigger] lists[i].contains(model) && !offered_before(
                            lists,
                            i,
                            model,
                        ) ==> request@ == config.providers@[i].completion_call(bytes)
                },
            }
        },
    }
}

/// One step of the completions route. A request without a model is refused
/// before any provider is asked; otherwise the providers are asked as on the
/// listing route, the request is forwarded, and the response handed on.
pub open spec fn completes_chat(
    config: Config,
    body: JsonDoc,
    stage: Stage,
    outcome: UpstreamOutcome,
    next: Stage,
    action: Action,
) -> bool {
    match stage {
        Stage::Forwarding => ends_with(relayed(outcome), next, action),
        Stage::Finished => ends_with(out_of_turn(), next, action),
        _ => if stage is Received && named_model(body) is None {
            ends_with(missing_model(), next, action)
        } else {
            let all = settled(config.providers@, reported(stage, outcome).unwrap());
            if all.len() < config.providers@.len() {
                asks_next(config, all, next, action)
            } else {
                forwards(config, body, all, next, action)
            }
        },
    }
}

/// Settling keeps what was reported, adds an entry only for a provider with
/// configured models, and stops at the first provider that must be asked.
pub proof fn settled_skips_configured(providers: Seq<Provider>, outcomes: Seq<UpstreamOutcome>)
    ensures
        outcomes.is_prefix_of(settled(providers, outcomes)),
        forall|i: int|
            outcomes.len() <= i < settled(providers, outcomes).len() ==> providers[i].models is Some
                && #[trigger] settled(providers, outcomes)[i] == UpstreamOutcome::NotAsked,
        settled(providers, outcomes).len() < providers.len() ==> providers[settled(
            providers,
            outcomes,
        ).len() as int].models is None,
        outcomes.len() <= providers.len() ==> settled(providers, outcomes).len() <= providers.len(),
    decreases providers.len() - outcomes.len(),
{
    if outcomes.len() < providers.len() && providers[outcomes.len() as int].models is Some {
        settled_skips_configured(providers, outcomes.push(UpstreamOutcome::NotAsked));
        let longer = outcomes.push(UpstreamOutcome::NotAsked);
        let all = settled(providers, outcomes);
        assert forall|i: int| 0 <= i < outcomes.len() implies outcomes[i] == all[i] by {
            assert(longer[i] == outcomes[i]);
        }
        assert forall|i: int| outcomes.len() <= i < all.len() implies providers[i].models is Some
            && #[trigger] all[i] == UpstreamOutcome::NotAsked by {
            if i == outcomes.len() {
                assert(longer[i] == UpstreamOutcome::NotAsked);
            }
        }
    }
}

/// Neither route ever asks a provider with configured models for its list:
/// a call goes to the next provider without them, and what was reported so
/// far is kept, so that providers are asked in their order, each once.
pub proof fn configured_provider_is_never_asked(
    config: Config,
    outcomes: Seq<UpstreamOutcome>,
    next: Stage,
    action: Action,
)
    requires
        settled(config.providers@, outcomes).len() < config.providers@.len(),
        asks_next(config, settled(config.providers@, outcomes), next, action),
    ensures
        action matches Action::Call(request) && next matches Stage::Listing { outcomes: kept }
            && config.providers@[kept@.len() as int].models is None
            && request@ == config.providers@[kept@.len() as int].listing_get()
            && outcomes.is_prefix_of(kept@),
{
    settled_skips_configured(config.providers@, outcomes);
}

/// A completion request that names no model is refused as soon as it arrives,
/// before any provider is asked.
pub proof fn request_without_model_is_refused(
    config: Config,
    body: JsonDoc,
    outcome: UpstreamOutcome,
    next: Stage,
    action: Action,
)
    requires
        named_model(body) is None,
        completes_chat(config, body, Stage::Received, outcome, next, action),
    ensures
        next is Finished,
        action matches Action::Respond(reply) && reply@.status == 400 && reply@ == missing_model(),
{
}

/// A completion request for a model that no provider offers ends, once all
/// listings are in, with the reply that names the model.
pub proof fn request_for_unknown_model_is_refused(
    config: Config,
    body: JsonDoc,
    outcomes: Seq<UpstreamOutcome>,
    next: Stage,
    action: Action,
)
    requires
        named_model(body) is Some,
        forall|i: int|
            0 <= i < config.providers@.len() ==> !(#[trigger] config.offered(outcomes)[i]).contains(
                named_model(body)->0,
            ),
        forwards(config, body, outcomes, next, action),
    ensures
        next is Finished,
        action matches Action::Respond(reply) && reply@.status == 404 && reply@ == model_not_found(
            named_model(body)->0,
        ),
{
}

/// Once the completion request is with a provider, the provider's response
/// is the reply: same status, same bytes.
pub proof fn completion_response_is_handed_on(
    config: Config,
    body: JsonDoc,
    status: u16,
    bytes: Vec<u8>,
    next: Stage,
    action: Action,
)
    requires
        crate::reply::is_status_code(status),
        completes_chat(
            config,
            body,
            Stage::Forwarding,
            UpstreamOutcome::Answered { status, body: bytes },
            next,
            action,
        ),
    ensures
        next is Finished,
        action matches Action::Respond(reply) && reply@.status == status && reply@.body == bytes@,
{
}

/// The model that a completion request names.
pub fn requested_model(body: &serde_json::Value) -> (model: Option<String>)
    ensures
        match model {
            Some(m) => named_model(doc_of(*body)) == Some(m@),
            None => named_model(doc_of(*body)) is None,
        },
{
    match json_member(body, "model") {
        Some(member) => match json_text(member) {
            Some(t) => Some(String::from_str(t)),
            None => None,
        },
        None => None,
    }
}

/// The reply that lists the given records.
pub fn make_catalog_reply(records: Vec<serde_json::Value>) -> (reply: HttpReply)
    ensures
        reply@ == catalog_reply(docs_of(records@)),
{
    let ghost listed = docs_of(records@);
    let mut fields: Vec<(String, serde_json::Value)> = Vec::new();
    fields.push(field("object", json_string(String::from_str("list"))));
    fields.push(field("data", json_list(records)));
    proof {
        reveal_strlit("object");
        reveal_strlit("data");
        assert("object"@[0] != "data"@[0]);
        reveal_with_fuel(record_of, 3);
        assert(named_docs(fields@).drop_last().drop_last().len() == 0);
        assert(record_of(named_docs(fields@)) =~= catalog_doc(listed)->Record_0);
    }
    let doc = json_record(fields);
    match render_json(&doc) {
        Some(bytes) => HttpReply {
            status: 200,
            content_type: String::from_str("application/json"),
            body: bytes,
        },
        None => error_reply(
            500,
            "Failed to fetch models: the list could not be written",
            "internal_error",
        ),
    }
}

impl Config {
    /// Continues `outcomes` over the providers that need not be asked.
    pub fn settle(&self, outcomes: Vec<UpstreamOutcome>) -> (all: Vec<UpstreamOutcome>)
        ensures
            all@ == settled(self.providers@, outcomes@),
            all.len() < self.providers.len() ==> self.providers[all.len() as int].models is None,
    {
        let mut all = outcomes;
        while all.len() < self.providers.len() && self.providers[all.len()].models.is_some()
            invariant
                settled(self.providers@, all@) == settled(self.providers@, outcomes@),
            decreases self.providers.len() - all.len(),
        {
            all.push(UpstreamOutcome::NotAsked);
        }
        all
    }
}

/// Asks the next provider, which `outcomes` has reached.
fn ask_next(config: &Config, outcomes: Vec<UpstreamOutcome>) -> (step: (Stage, Action))
    requires
        outcomes.len() < config.providers.len(),
        config.providers[outcomes.len() as int].models is None,
    ensures
        asks_next(*config, outcomes@, step.0, step.1),
{
    let request = config.providers[outcomes.len()].listing_request();
    (Stage::Listing { outcomes }, Action::Call(request))
}

/// Ends the handling with a reply.
fn end_with(reply: HttpReply) -> (step: (Stage, Action))
    ensures
        ends_with(reply@, step.0, step.1),
{
    (Stage::Finished, Action::Respond(reply))
}

/// The listing route, `GET /v1/models`: one step of it. Enter it at
/// [`Stage::Received`] when the request arrives (`outcome` is then not looked
/// at), and again at the stage it returned with the outcome of each call it
/// asked for.
pub fn models_endpoint(config: &Config, stage: Stage, outcome: UpstreamOutcome) -> (step: (Stage, Action))
    ensures
        lists_models(*config, stage, outcome, step.0, step.1),
{
    let known = match stage {
        Stage::Received => Vec::new(),
        Stage::Listing { outcomes } => {
            let mut outcomes = outcomes;
            outcomes.push(outcome);
            outcomes
        },
        _ => {
            return end_with(error_reply(500, "No request is being handled", "internal_error"));
        },
    };
    let all = config.settle(known);
    if all.len() < config.providers.len() {
        ask_next(config, all)
    } else {
        end_with(make_catalog_reply(config.get_all_raw_models(&all)))
    }
}

/// Sends a completion request on its way, all listings being in.
pub fn forward_completion(
    req: &serde_json::Value,
    config: &Config,
    outcomes: &Vec<UpstreamOutcome>,
) -> (step: (Stage, Action))
    ensures
        forwards(*config, doc_of(*req), outcomes@, step.0, step.1),
{
    let model = match requested_model(req) {
        Some(m) => m,
        None => {
            return end_with(error_reply(400, "Missing model field", "bad_request"));
        },
    };
    let mapping = config.get_model_mapping(outcomes);
    let ghost lists = config.offered(outcomes@);
    let provider = match mapping.get(model.as_str()) {
        Some(p) => p,
        None => {
            let message = join(join("Model '", model.as_str()).as_str(), "' not found");
            return end_with(error_reply(404, message.as_str(), "not_found"));
        },
    };
    match render_json(req) {
        Some(bytes) => {
            let request = provider.chat_request(bytes);
            proof {
                assert forall|i: int|
                    0 <= i < lists.len() && #[trigger] lists[i].contains(model@) && !offered_before(
                        lists,
                        i,
                        model@,
                    ) implies request@ == config.providers@[i].completion_call(bytes@) by {
                    assert(mapping@[model@] == config.provider_views()[i]);
                    assert(config.providers@[i]@ == provider@);
                }
            }
            (Stage::Forwarding, Action::Call(request))
        },
        None => {
            let message = join("Failed to forward request: ", "the request body could not be written");
            end_with(error_reply(500, message.as_str(), "internal_error"))
        },
    }
}

/// The completions route, `POST /v1/chat/completions`: one step of it, for
/// the request body `req`. Enter it at [`Stage::Received`] when the request
/// arrives (`outcome` is then not looked at), and again at the stage it
/// returned with the outcome of each call it asked for.
pub fn chat_completions(
    req: &serde_json::Value,
    config: &Config,
    stage: Stage,
    outcome: UpstreamOutcome,
) -> (step: (Stage, Action))
    ensures
        completes_chat(*config, doc_of(*req), stage, outcome, step.0, step.1),
{
    let known = match stage {
        Stage::Received => {
            if requested_model(req).is_none() {
                return end_with(error_reply(400, "Missing model field", "bad_request"));
            }
            Vec::new()
        },
        Stage::Listing { outcomes } => {
            let mut outcomes = outcomes;
            outcomes.push(outcome);
            outcomes
        },
        Stage::Forwarding => {
            return end_with(relay_completion(outcome));
        },
        Stage::Finished => {
            return end_with(error_reply(500, "No request is being handled", "internal_error"));
        },
    };
    let all = config.settle(known);
    if all.len() < config.providers.len() {
        ask_next(config, all)
    } else {
        forward_completion(req, config, &all)
    }
}

} // verus!
