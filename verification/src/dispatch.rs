//! Rendering on request: one request at a time, in the order given, and none
//! after the first that fails.
//!
//! The dispatcher decides; the caller does the work. A step hands out the
//! next request to render. The caller asks the engine and hands the answer
//! back, and the dispatcher turns it into the output to deliver or into the
//! failure that ends the run.

use vstd::prelude::*;
use crate::engine::template_not_found;
use crate::error::TemplateError;
use crate::registry::Registry;
use crate::template::{
    empty_template_name, parse_render_arg, render_request, render_template, Output,
};
use crate::text::{option_view, texts};

verus! {

/// A request that is ready for the engine: the name of a registered template,
/// and the file that the text goes to, where the request names one.
#[derive(Debug)]
pub struct Request {
    pub template: String,
    pub target: Option<String>,
}

/// What the caller is to do after a step of the dispatcher.
#[derive(Debug)]
pub enum Step {
    /// Ask the engine to render the template of this request, and hand the
    /// answer to `answered`.
    Render(Request),
    /// No request is left: the run is over.
    Finished,
    /// The request failed: the run is over, and no request after it is
    /// rendered.
    Failed(TemplateError),
}

/// What a step does, with the requests `before` pending ahead of it and
/// `after` pending behind it, and with `registered` as the templates at hand.
///
/// With nothing pending the run is finished, and stays so. Otherwise the step
/// is about the first pending request. A request for a registered template
/// is handed out, with its name and its target, and the other requests stay
/// pending. A request without a template name fails with the message for it,
/// one for a template that is not registered with the engine's error, and
/// with either nothing stays pending.
pub open spec fn advances(
    before: Seq<Seq<char>>,
    registered: Map<Seq<char>, Seq<char>>,
    step: Step,
    after: Seq<Seq<char>>,
) -> bool {
    if before.len() == 0 {
        step is Finished && after.len() == 0
    } else {
        match render_request(before[0]) {
            Some((name, target)) => if registered.contains_key(name) {
                &&& step matches Step::Render(request)
                &&& request.template@ == name
                &&& option_view(request.target) == target
                &&& after == before.drop_first()
            } else {
                &&& step matches Step::Failed(e)
                &&& e is TeraError
                &&& after.len() == 0
            },
            None => {
                &&& step matches Step::Failed(TemplateError::InvalidArgument(text))
                &&& text@ == empty_template_name()
                &&& after.len() == 0
            },
        }
    }
}

/// What becomes of the engine's answer to `request`, with the requests
/// `before` pending ahead of it and `after` pending behind it.
///
/// The engine's text is the output, as it is, for the target of the request,
/// and what is pending stays so. The engine's error is the run's error, and
/// nothing stays pending.
pub open spec fn settles(
    before: Seq<Seq<char>>,
    request: Request,
    answer: Result<String, tera::Error>,
    delivery: Result<Output, TemplateError>,
    after: Seq<Seq<char>>,
) -> bool {
    match answer {
        Ok(text) => {
            &&& delivery matches Ok(output)
            &&& output.text == text
            &&& option_view(output.target) == option_view(request.target)
            &&& after == before
        },
        Err(cause) => {
            &&& delivery matches Err(e)
            &&& e == TemplateError::TeraError(cause)
            &&& after.len() == 0
        },
    }
}

/// Fail-fast, for a request that fails before the engine is asked: the step
/// that follows a failed step hands out nothing and finishes the run,
/// whatever is registered by then and whatever requests stood behind the one
/// that failed.
pub proof fn lemma_nothing_after_failure(
    before: Seq<Seq<char>>,
    registered: Map<Seq<char>, Seq<char>>,
    failed: Step,
    between: Seq<Seq<char>>,
    registered_then: Map<Seq<char>, Seq<char>>,
    next: Step,
    after: Seq<Seq<char>>,
)
    requires
        advances(before, registered, failed, between),
        failed is Failed,
        advances(between, registered_then, next, after),
    ensures
        next is Finished,
        after.len() == 0,
{
}

/// Fail-fast, for a request that the engine fails: the step that follows
/// hands out nothing and finishes the run.
pub proof fn lemma_nothing_after_refusal(
    before: Seq<Seq<char>>,
    request: Request,
    answer: Result<String, tera::Error>,
    delivery: Result<Output, TemplateError>,
    between: Seq<Seq<char>>,
    registered: Map<Seq<char>, Seq<char>>,
    next: Step,
    after: Seq<Seq<char>>,
)
    requires
        settles(before, request, answer, delivery, between),
        delivery is Err,
        advances(between, registered, next, after),
    ensures
        answer is Err,
        next is Finished,
        after.len() == 0,
{
}

/// A request for a template that is not registered fails, and so does a
/// request without a template name.
pub proof fn lemma_unknown_template_fails(
    before: Seq<Seq<char>>,
    registered: Map<Seq<char>, Seq<char>>,
    step: Step,
    after: Seq<Seq<char>>,
)
    requires
        advances(before, registered, step, after),
        before.len() > 0,
        match render_request(before[0]) {
            Some((name, _)) => !registered.contains_key(name),
            None => true,
        },
    ensures
        step is Failed,
        after.len() == 0,
{
}

/// The render requests of a run, and how far the run has come with them.
#[derive(Debug)]
pub struct Dispatcher {
    requests: Vec<String>,
    next: usize,
}

impl Dispatcher {
    #[verifier::type_invariant]
    spec fn in_range(self) -> bool {
        self.next <= self.requests@.len()
    }

    /// The requests that are still to be taken up, in order.
    pub closed spec fn pending(&self) -> Seq<Seq<char>> {
        texts(self.requests@).skip(self.next as int)
    }

    /// A dispatcher with all of `requests` pending.
    pub fn new(requests: Vec<String>) -> (dispatcher: Dispatcher)
        ensures
            dispatcher.pending() == texts(requests@),
    {
        let dispatcher = Dispatcher { requests, next: 0 };
        assert(texts(dispatcher.requests@).skip(0) =~= texts(dispatcher.requests@));
        dispatcher
    }

    /// Gives up what is pending: the caller could not deliver an output.
    pub fn halt(&mut self)
        ensures
            final(self).pending().len() == 0,
    {
        self.next = self.requests.len();
    }

    /// Takes up the first pending request, if there is one, and says what to
    /// do next.
    pub fn step(&mut self, registry: &Registry) -> (step: Step)
        ensures
            advances(old(self).pending(), registry@, step, final(self).pending()),
    {
        proof {
            use_type_invariant(&*self);
        }
        if self.next >= self.requests.len() {
            return Step::Finished;
        }
        assert(old(self).pending()[0] == self.requests@[self.next as int]@);
        let (template, target) = match parse_render_arg(self.requests[self.next].as_str()) {
            Ok(request) => request,
            Err(e) => {
                self.next = self.requests.len();
                return Step::Failed(e);
            },
        };
        if !registry.contains(template.as_str()) {
            self.next = self.requests.len();
            return Step::Failed(TemplateError::TeraError(template_not_found(template.as_str())));
        }
        self.next = self.next + 1;
        assert(self.pending() =~= old(self).pending().drop_first());
        Step::Render(Request { template, target })
    }

    /// Takes the engine's answer to `request` and gives the output to
    /// deliver, or the failure that ends the run.
    pub fn answered(&mut self, request: Request, answer: Result<String, tera::Error>) -> (delivery:
        Result<Output, TemplateError>)
        ensures
            settles(old(self).pending(), request, answer, delivery, final(self).pending()),
    {
        let delivery = match &request.target {
            Some(target) => render_template(answer, Some(target.as_str())),
            None => render_template(answer, None),
        };
        if delivery.is_err() {
            self.next = self.requests.len();
        }
        delivery
    }
}

} // verus!
