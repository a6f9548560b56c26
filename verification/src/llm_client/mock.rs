//! A model that replays answers which were prepared for it, one for each request,
//! and keeps the requests.

pub mod canned;

use crate::llm_client::{
    piece_views, Delta, MessageDelta, MessageRequest, MessageResponse, PieceView, RequestView,
    ResponseView, StreamEvent,
};
use crate::models::{content_views, no_usage, ContentBlock, ContentView, Usage};
use crate::text::{decimal, opt_text, push_usize};
use vstd::prelude::*;

verus! {

/// An answer that was prepared.
pub type CannedTurn = Vec<StreamEvent>;

/// What answers one request.
#[derive(Debug)]
pub enum FauxStep<F> {
    /// An answer that was prepared.
    Canned(CannedTurn),
    /// One that is made from the request.
    Factory(F),
}

/// A model that replays answers which were prepared for it.
#[derive(Debug)]
pub struct MockLlmClient<F> {
    pub canned: Vec<FauxStep<F>>,
    pub captured: Vec<MessageRequest>,
    pub provider: &'static str,
    pub model_name: String,
    pub canned_messages: Vec<MessageResponse>,
}

/// The views of a list of requests.
pub open spec fn request_views(list: Seq<MessageRequest>) -> Seq<RequestView> {
    list.map_values(|r: MessageRequest| r@)
}

/// The answer that a step may give to a request.
pub open spec fn may_answer<F: Fn(&MessageRequest) -> CannedTurn>(
    step: FauxStep<F>,
    request: MessageRequest,
    turn: CannedTurn,
) -> bool {
    match step {
        FauxStep::Canned(t) => turn == t,
        FauxStep::Factory(f) => call_ensures(f, (&request,), turn),
    }
}

/// The text of the first `n` pieces of an answer.
pub open spec fn text_of_pieces(pieces: Seq<PieceView>, n: nat) -> Seq<char>
    decreases n,
{
    if n == 0 {
        Seq::empty()
    } else {
        let before = text_of_pieces(pieces, (n - 1) as nat);
        match pieces[n - 1] {
            PieceView::TextDelta(_, text) => before + text,
            _ => before,
        }
    }
}

/// Why an answer stopped, by the first `n` of its pieces.
pub open spec fn stop_of_pieces(pieces: Seq<PieceView>, n: nat) -> Option<Seq<char>>
    decreases n,
{
    if n == 0 {
        None
    } else {
        match pieces[n - 1] {
            PieceView::MessageDelta { stop_reason, .. } => stop_reason,
            _ => stop_of_pieces(pieces, (n - 1) as nat),
        }
    }
}

/// An answer put together from its pieces.
pub open spec fn put_together(pieces: Seq<PieceView>, model: Seq<char>) -> ResponseView {
    ResponseView {
        id: "mock_msg"@,
        message_type: "message"@,
        role: "assistant"@,
        content: seq![
            ContentView::Text { text: text_of_pieces(pieces, pieces.len()), cache_type: None },
        ],
        model,
        stop_reason: Some(
            match stop_of_pieces(pieces, pieces.len()) {
                Some(s) => s,
                None => "end_turn"@,
            },
        ),
        stop_sequence: None,
        container: None,
        usage: no_usage(),
    }
}

/// Puts an answer together from its pieces.
pub fn synthesize_message_response(turn: &CannedTurn, model: &str) -> (r: MessageResponse)
    ensures
        r@ == put_together(piece_views(turn@), model@),
{
    let ghost all = piece_views(turn@);
    let mut text = String::new();
    let mut stop_reason: Option<String> = None;
    let mut i: usize = 0;
    while i < turn.len()
        invariant
            i <= turn@.len(),
            all == piece_views(turn@),
            all.len() == turn@.len(),
            text@ == text_of_pieces(all, i as nat),
            opt_text(stop_reason) == stop_of_pieces(all, i as nat),
        decreases turn@.len() - i,
    {
        assert(all[i as int] == turn@[i as int]@);
        match &turn[i] {
            StreamEvent::ContentBlockDelta { delta: Delta::TextDelta { text: t }, .. } => {
                text.append(t.as_str());
            },
            StreamEvent::MessageDelta { delta, .. } => {
                stop_reason = delta.stop_reason.clone();
            },
            _ => {},
        }
        i += 1;
    }
    let stop = match stop_reason {
        Some(s) => s,
        None => "end_turn".to_owned(),
    };
    let content: Vec<ContentBlock> = vec![ContentBlock::Text { text, cache_control: None }];
    proof {
        assert(content_views(content@) =~= seq![
            ContentView::Text { text: text_of_pieces(all, all.len()), cache_type: None },
        ]);
    }
    MessageResponse {
        id: "mock_msg".to_owned(),
        message_type: "message".to_owned(),
        role: "assistant".to_owned(),
        content,
        model: model.to_owned(),
        stop_reason: Some(stop),
        stop_sequence: None,
        container: None,
        usage: Usage::default(),
    }
}

/// The pieces of an answer as they are replayed: the last one tells that the
/// answer is over.
pub open spec fn replayed(turn: Seq<StreamEvent>) -> Seq<StreamEvent> {
    if turn.len() > 0 && turn.last() is MessageStop {
        turn
    } else {
        turn.push(StreamEvent::MessageStop)
    }
}

/// The pieces of an answer as they are replayed.
pub fn stream_from_canned(turn: CannedTurn) -> (r: CannedTurn)
    ensures
        r@ == replayed(turn@),
{
    let n: usize = turn.len();
    let has_stop = n > 0 && match &turn[n - 1] {
        StreamEvent::MessageStop => true,
        _ => false,
    };
    let mut out = turn;
    if !has_stop {
        out.push(StreamEvent::MessageStop);
    }
    out
}

/// What is said where no answer is left for a request.
pub open spec fn no_response(count: nat) -> Seq<char> {
    "MockLlmClient: create_message called but no canned response queued (request #"@ + decimal(
        count,
    ) + ")"@
}

/// What is said where no answer is left to be replayed.
pub open spec fn no_turn(count: nat) -> Seq<char> {
    "MockLlmClient: create_message_stream called but no canned turn queued (call #"@ + decimal(
        count,
    ) + ")"@
}

/// The steps for a list of answers.
pub open spec fn canned_steps<F>(turns: Seq<CannedTurn>) -> Seq<FauxStep<F>> {
    turns.map_values(|t: CannedTurn| FauxStep::Canned(t))
}

impl<F: Fn(&MessageRequest) -> CannedTurn> MockLlmClient<F> {
    /// A model with these answers.
    pub fn new(canned: Vec<CannedTurn>) -> (r: Self)
        ensures
            r.canned@ == canned_steps::<F>(canned@),
            r.captured@.len() == 0,
            r.canned_messages@.len() == 0,
            r.provider@ == "mock"@,
            r.model_name@ == "mock-model"@,
    {
        let ghost all = canned@;
        let ghost want = canned_steps::<F>(all);
        let mut rest = canned;
        let mut reversed: Vec<CannedTurn> = Vec::new();
        while rest.len() > 0
            invariant
                all.len() == rest@.len() + reversed@.len(),
                rest@ == all.take(rest@.len() as int),
                forall|i: int|
                    0 <= i < reversed@.len() ==> #[trigger] reversed@[i] == all[all.len() - 1 - i],
            decreases rest@.len(),
        {
            let ghost n = rest@.len() as int;
            assert(rest@[n - 1] == all[n - 1]);
            if let Some(t) = rest.pop() {
                reversed.push(t);
            }
            assert(rest@ =~= all.take(n - 1));
        }
        let mut steps: Vec<FauxStep<F>> = Vec::new();
        while reversed.len() > 0
            invariant
                want == canned_steps::<F>(all),
                all.len() == steps@.len() + reversed@.len(),
                forall|i: int|
                    0 <= i < reversed@.len() ==> #[trigger] reversed@[i] == all[all.len() - 1 - i],
                steps@ == want.take(steps@.len() as int),
            decreases reversed@.len(),
        {
            let ghost before = steps@;
            let ghost n = reversed@.len() as int;
            assert(reversed@[n - 1] == all[all.len() - n]);
            if let Some(t) = reversed.pop() {
                steps.push(FauxStep::Canned(t));
            }
            assert(steps@ =~= want.take(before.len() as int + 1));
        }
        assert(want.take(want.len() as int) =~= want);
        MockLlmClient {
            canned: steps,
            captured: Vec::new(),
            provider: "mock",
            model_name: "mock-model".to_owned(),
            canned_messages: Vec::new(),
        }
    }

    /// The model under another provider.
    pub fn with_provider(self, name: &'static str) -> (r: Self)
        ensures
            r == (MockLlmClient { provider: name, ..self }),
    {
        let mut out = self;
        out.provider = name;
        out
    }

    /// The model under another name.
    pub fn with_model(self, model: String) -> (r: Self)
        ensures
            r == (MockLlmClient { model_name: model, ..self }),
    {
        let mut out = self;
        out.model_name = model;
        out
    }

    /// Prepares one more answer.
    pub fn push_turn(&mut self, turn: CannedTurn)
        ensures
            final(self).canned@ == old(self).canned@.push(FauxStep::Canned(turn)),
            *final(self) == (MockLlmClient { canned: final(self).canned, ..*old(self) }),
    {
        self.canned.push(FauxStep::Canned(turn));
    }

    /// Prepares one more answer, which is made from the request.
    pub fn push_factory(&mut self, factory: F)
        ensures
            final(self).canned@ == old(self).canned@.push(FauxStep::Factory(factory)),
            *final(self) == (MockLlmClient { canned: final(self).canned, ..*old(self) }),
    {
        self.canned.push(FauxStep::Factory(factory));
    }

    /// Prepares one more answer that is given as a whole.
    pub fn push_message_response(&mut self, response: MessageResponse)
        ensures
            final(self).canned_messages@ == old(self).canned_messages@.push(response),
            *final(self) == (MockLlmClient {
                canned_messages: final(self).canned_messages,
                ..*old(self)
            }),
    {
        self.canned_messages.push(response);
    }

    /// How many requests came.
    pub fn call_count(&self) -> (r: usize)
        ensures
            r == self.captured@.len(),
    {
        self.captured.len()
    }

    /// How many answers are left.
    pub fn remaining_turns(&self) -> (r: usize)
        ensures
            r == self.canned@.len(),
    {
        self.canned.len()
    }

    /// The requests that came.
    pub fn captured_requests(&self) -> (r: Vec<MessageRequest>)
        ensures
            request_views(r@) == request_views(self.captured@),
    {
        let mut out: Vec<MessageRequest> = Vec::new();
        let mut i: usize = 0;
        while i < self.captured.len()
            invariant
                i <= self.captured@.len(),
                out@.len() == i,
                forall|k: int| 0 <= k < i ==> (#[trigger] out@[k])@ == self.captured@[k]@,
            decreases self.captured@.len() - i,
        {
            out.push(self.captured[i].clone());
            i += 1;
        }
        proof {
            assert(request_views(out@) =~= request_views(self.captured@));
        }
        out
    }

    /// The last request that came.
    pub fn last_request(&self) -> (r: Option<MessageRequest>)
        ensures
            match r {
                Some(request) => self.captured@.len() > 0 && request@ == self.captured@.last()@,
                None => self.captured@.len() == 0,
            },
    {
        let n: usize = self.captured.len();
        if n == 0 {
            return None;
        }
        Some(self.captured[n - 1].clone())
    }

    /// The name of the provider.
    pub fn provider_name(&self) -> (r: &'static str)
        ensures
            r == self.provider,
    {
        self.provider
    }

    /// The name of the model.
    pub fn model(&self) -> (r: &str)
        ensures
            r@ == self.model_name@,
    {
        self.model_name.as_str()
    }

    /// The model is always well.
    pub fn health_check(&self) -> (r: bool)
        ensures
            r,
    {
        true
    }

    /// Whatever answers come from factories can be made.
    pub open spec fn factories_work(&self) -> bool {
        forall|i: int, request: &MessageRequest|
            #![trigger self.canned@[i], call_requires(self.canned@[i]->Factory_0, (request,))]
            0 <= i < self.canned@.len() && self.canned@[i] is Factory ==> call_requires(
                self.canned@[i]->Factory_0,
                (request,),
            )
    }

    fn answer(&mut self, request: &MessageRequest) -> (r: Option<CannedTurn>)
        requires
            old(self).factories_work(),
        ensures
            match r {
                Some(turn) => {
                    &&& old(self).canned@.len() > 0
                    &&& may_answer(old(self).canned@[0], *request, turn)
                    &&& final(self).canned@ == old(self).canned@.skip(1)
                },
                None => old(self).canned@.len() == 0 && final(self).canned@
                    == old(self).canned@,
            },
            *final(self) == (MockLlmClient { canned: final(self).canned, ..*old(self) }),
    {
        if self.canned.len() == 0 {
            return None;
        }
        assert(self.canned@[0] is Factory ==> call_requires(
            self.canned@[0]->Factory_0,
            (request,),
        ));
        let step = self.canned.remove(0);
        assert(self.canned@ =~= old(self).canned@.skip(1));
        Some(
            match step {
                FauxStep::Canned(turn) => turn,
                FauxStep::Factory(factory) => factory(request),
            },
        )
    }

    /// Answers a request as a whole: with what was prepared as a whole, or else
    /// with the next answer, put together from its pieces. Where nothing is left
    /// an error comes back. The request is kept in any case.
    pub fn create_message(&mut self, request: MessageRequest) -> (r: Result<
        MessageResponse,
        String,
    >)
        requires
            old(self).factories_work(),
        ensures
            final(self).captured@ == old(self).captured@.push(request),
            final(self).provider == old(self).provider,
            final(self).model_name == old(self).model_name,
            if old(self).canned_messages@.len() > 0 {
                &&& r == Ok::<MessageResponse, String>(old(self).canned_messages@[0])
                &&& final(self).canned_messages@ == old(self).canned_messages@.skip(1)
                &&& final(self).canned == old(self).canned
            } else if old(self).canned@.len() > 0 {
                &&& r matches Ok(response)
                &&& exists|turn: CannedTurn| #[trigger]
                    may_answer(old(self).canned@[0], request, turn) && response@
                        == put_together(piece_views(turn@), old(self).model_name@)
                &&& final(self).canned@ == old(self).canned@.skip(1)
                &&& final(self).canned_messages == old(self).canned_messages
            } else {
                &&& r matches Err(text)
                &&& text@ == no_response(final(self).captured@.len())
                &&& final(self).canned@ == old(self).canned@
                &&& final(self).canned_messages == old(self).canned_messages
            },
    {
        if self.canned_messages.len() > 0 {
            let first = self.canned_messages.remove(0);
            assert(self.canned_messages@ =~= old(self).canned_messages@.skip(1));
            self.captured.push(request);
            return Ok(first);
        }
        let answered = self.answer(&request);
        self.captured.push(request);
        match answered {
            Some(turn) => Ok(synthesize_message_response(&turn, self.model_name.as_str())),
            None => {
                let mut text = "MockLlmClient: create_message called but no canned response queued (request #".to_owned();
                push_usize(&mut text, self.captured.len());
                text.append(")");
                Err(text)
            },
        }
    }

    /// Answers a request piece by piece with the next answer. Where nothing is
    /// left an error comes back. The request is kept in any case.
    pub fn create_message_stream(&mut self, request: MessageRequest) -> (r: Result<
        CannedTurn,
        String,
    >)
        requires
            old(self).factories_work(),
        ensures
            final(self).captured@ == old(self).captured@.push(request),
            final(self).provider == old(self).provider,
            final(self).model_name == old(self).model_name,
            final(self).canned_messages == old(self).canned_messages,
            if old(self).canned@.len() > 0 {
                &&& r matches Ok(pieces)
                &&& exists|turn: CannedTurn| #[trigger]
                    may_answer(old(self).canned@[0], request, turn) && pieces@ == replayed(turn@)
                &&& final(self).canned@ == old(self).canned@.skip(1)
            } else {
                &&& r matches Err(text)
                &&& text@ == no_turn(final(self).captured@.len())
                &&& final(self).canned@ == old(self).canned@
            },
    {
        let answered = self.answer(&request);
        self.captured.push(request);
        match answered {
            Some(turn) => Ok(stream_from_canned(turn)),
            None => {
                let mut text = "MockLlmClient: create_message_stream called but no canned turn queued (call #".to_owned();
                push_usize(&mut text, self.captured.len());
                text.append(")");
                Err(text)
            },
        }
    }
}

/// An answer that is replayed always ends by telling so, and replaying changes
/// nothing of one that does.
pub proof fn law_answers_end(turn: Seq<StreamEvent>)
    ensures
        replayed(turn).len() > 0,
        replayed(turn).last() is MessageStop,
        replayed(replayed(turn)) == replayed(turn),
{
}

} // verus!
