//! Dispatch between the two ways of reaching a D1 database.
//!
//! Both answer the same two questions (run this statement, run this batch), so
//! everything above this module is written once.

use vstd::prelude::*;

use crate::binding::{binding_call, BindingCall, BindingCallView, D1Binding};
use crate::http::{raw_request, D1Client, D1ClientView, HttpRequest, HttpRequestView};
use crate::outcome::{Request, RequestView, Want};

verus! {

/// A way of reaching a database.
pub enum Transport {
    Rest(D1Client),
    Binding(D1Binding),
}

/// What a [`Transport`] stands for.
pub enum TransportView {
    Rest(D1ClientView),
    Binding(worker::D1Database),
}

impl View for Transport {
    type V = TransportView;

    open spec fn view(&self) -> TransportView {
        match self {
            Transport::Rest(client) => TransportView::Rest(client@),
            Transport::Binding(binding) => TransportView::Binding(binding.database()),
        }
    }
}

/// What has to be sent to run one statement.
pub enum Call {
    Rest(HttpRequest),
    Binding(BindingCall),
}

/// What a [`Call`] stands for.
pub enum CallView {
    Rest(HttpRequestView),
    Binding(BindingCallView),
}

impl View for Call {
    type V = CallView;

    open spec fn view(&self) -> CallView {
        match self {
            Call::Rest(request) => CallView::Rest(request@),
            Call::Binding(call) => CallView::Binding(call@),
        }
    }
}

/// Several statements that commit together: each by itself, and all of them in
/// one text.
#[derive(Debug, PartialEq)]
pub struct Batch {
    pub statements: Vec<String>,
    pub sql: String,
}

/// What has to be sent to run a batch.
pub enum BatchCall {
    /// One request whose text holds all statements.
    Rest(HttpRequest),
    /// The statements to be prepared and handed over together.
    Binding(Vec<String>),
}

/// What has to be sent to run one statement. The HTTP API reports rows and the
/// change count together, so it has no use for which half is wanted.
pub open spec fn call_for(transport: TransportView, request: RequestView) -> CallView {
    match transport {
        TransportView::Rest(client) => CallView::Rest(
            raw_request(client, request.sql, request.params),
        ),
        TransportView::Binding(_) => CallView::Binding(binding_call(request)),
    }
}

impl Transport {
    /// What has to be sent to run one statement.
    pub fn raw(&self, request: Request) -> (r: Call)
        ensures
            r@ == call_for(self@, request@),
    {
        match self {
            Transport::Rest(client) => Call::Rest(client.raw(request.sql, request.params)),
            Transport::Binding(binding) => Call::Binding(binding.raw(request)),
        }
    }

    /// What has to be sent to run several statements, all or none of them.
    pub fn raw_batch(&self, batch: Batch) -> (r: BatchCall)
        ensures
            match self@ {
                TransportView::Rest(client) => r matches BatchCall::Rest(request) && request@
                    == raw_request(client, batch.sql@, Seq::empty()),
                TransportView::Binding(_) => r == BatchCall::Binding(batch.statements),
            },
    {
        match self {
            Transport::Rest(client) => BatchCall::Rest(client.raw_batch(batch.sql)),
            Transport::Binding(_) => BatchCall::Binding(batch.statements),
        }
    }
}

impl Clone for Transport {
    fn clone(&self) -> (r: Transport)
        ensures
            r@ == self@,
    {
        match self {
            Transport::Rest(client) => Transport::Rest(client.clone()),
            Transport::Binding(binding) => Transport::Binding(binding.clone()),
        }
    }
}

/// The HTTP API reports rows and the change count together, so which half is
/// wanted makes no difference to what is sent.
pub proof fn http_sends_the_same_for_both_halves(
    client: D1ClientView,
    request: RequestView,
    want: Want,
)
    ensures
        call_for(TransportView::Rest(client), RequestView { want, ..request }) == call_for(
            TransportView::Rest(client),
            request,
        ),
{
}

/// A statement goes out over the transport that there is: as a request that
/// carries the statement and its parameters, or as a call of the binding.
pub proof fn statement_goes_over_the_transport(
    client: D1ClientView,
    database: worker::D1Database,
    request: RequestView,
)
    ensures
        call_for(TransportView::Rest(client), request) == CallView::Rest(
            raw_request(client, request.sql, request.params),
        ),
        call_for(TransportView::Binding(database), request) == CallView::Binding(
            binding_call(request),
        ),
{
}

/// A transport and a call stand for themselves.
pub proof fn transport_stands_for_itself(
    client: D1Client,
    binding: D1Binding,
    request: HttpRequest,
    call: BindingCall,
)
    ensures
        Transport::Rest(client)@ == TransportView::Rest(client@),
        Transport::Binding(binding)@ == TransportView::Binding(binding.database()),
        Call::Rest(request)@ == CallView::Rest(request@),
        Call::Binding(call)@ == CallView::Binding(call@),
{
}

} // verus!
