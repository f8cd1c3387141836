//! The transaction evaluator: the exact, ordered sequence of rule-engine
//! operations that one request descriptor induces. The embedding executes
//! the steps against its per-thread engine instance in order; everything
//! about their content and order is decided and proved here.

use vstd::prelude::*;

use crate::descriptor::{spec_descriptor, DescriptorView, RequestAttributes, RequestDescriptor};
use crate::filter::{ModSecurityWAF, SubmissionMode};

verus! {

/// The fixed port registered as the server side of the connection info.
pub const SERVER_PROBE_PORT: u16 = 80;

/// One operation fed to the rule engine while evaluating a request, in
/// plain values.
#[derive(Debug, Clone, PartialEq, Eq)]
pub enum EngineStep {
    /// Open the engine transaction under the request-unique identifier.
    Begin { id: String },
    /// Register connection info: client address and port, server address,
    /// and the fixed probe port.
    Connection { client_ip: String, client_port: u16, server_addr: String, server_port: u16 },
    /// Register the request line: URI, method, protocol version.
    Uri { uri: String, method: String, version: String },
    /// Register one header occurrence; repeated for each value, preserving
    /// multiplicity and order.
    Header { name: String, value: String },
    /// Hand the captured body bytes to the engine.
    Body { body: Vec<u8> },
    /// Run the request-headers evaluation phase.
    ProcessHeaders,
    /// Run the request-body evaluation phase.
    ProcessBody,
    /// Query the engine for its intervention decision.
    QueryIntervention,
    /// Run the logging phase.
    Logging,
}

/// The mathematical content of one engine operation.
pub ghost enum StepView {
    Begin { id: Seq<char> },
    Connection { client_ip: Seq<char>, client_port: u16, server_addr: Seq<char>, server_port: u16 },
    Uri { uri: Seq<char>, method: Seq<char>, version: Seq<char> },
    Header { name: Seq<char>, value: Seq<char> },
    Body { body: Seq<u8> },
    ProcessHeaders,
    ProcessBody,
    QueryIntervention,
    Logging,
}

impl View for EngineStep {
    type V = StepView;

    open spec fn view(&self) -> StepView {
        match self {
            EngineStep::Begin { id } => StepView::Begin { id: id@ },
            EngineStep::Connection { client_ip, client_port, server_addr, server_port } => (
            StepView::Connection {
                client_ip: client_ip@,
                client_port: *client_port,
                server_addr: server_addr@,
                server_port: *server_port,
            }),
            EngineStep::Uri { uri, method, version } => (StepView::Uri {
                uri: uri@,
                method: method@,
                version: version@,
            }),
            EngineStep::Header { name, value } => (StepView::Header {
                name: name@,
                value: value@,
            }),
            EngineStep::Body { body } => StepView::Body { body: body@ },
            EngineStep::ProcessHeaders => StepView::ProcessHeaders,
            EngineStep::ProcessBody => StepView::ProcessBody,
            EngineStep::QueryIntervention => StepView::QueryIntervention,
            EngineStep::Logging => StepView::Logging,
        }
    }
}

/// The unspecified client address substituted when the real one does not
/// parse: evaluation proceeds rather than failing the request.
pub open spec fn unspecified_addr() -> Seq<char> {
    "0.0.0.0"@
}

/// The header-registration steps one header entry induces: one step per
/// value, in order.
pub open spec fn value_steps(name: Seq<char>, values: Seq<Seq<char>>) -> Seq<StepView>
    decreases values.len(),
{
    if values.len() == 0 {
        Seq::empty()
    } else {
        value_steps(name, values.drop_last()).push(
            StepView::Header { name, value: values.last() },
        )
    }
}

/// The header-registration steps a whole header buffer induces: entries in
/// buffer order, each value in its recorded order, multiplicity preserved.
pub open spec fn header_steps(headers: Seq<(Seq<char>, Seq<Seq<char>>)>) -> Seq<StepView>
    decreases headers.len(),
{
    if headers.len() == 0 {
        Seq::empty()
    } else {
        header_steps(headers.drop_last()) + value_steps(headers.last().0, headers.last().1)
    }
}

/// The steps that precede header registration: transaction begin,
/// connection info (with the unspecified-address fallback), request line.
pub open spec fn plan_prefix(d: DescriptorView, client_ip_valid: bool) -> Seq<StepView> {
    seq![
        StepView::Begin { id: d.id },
        StepView::Connection {
            client_ip: if client_ip_valid {
                d.client_ip
            } else {
                unspecified_addr()
            },
            client_port: d.client_port,
            server_addr: d.server_addr,
            server_port: SERVER_PROBE_PORT,
        },
        StepView::Uri { uri: d.uri, method: d.method, version: d.version },
    ]
}

/// The steps that follow header registration: body, the two evaluation
/// phases in order, the decision query, and the logging phase. Every
/// evaluation reaches the decision query.
pub open spec fn plan_suffix(d: DescriptorView) -> Seq<StepView> {
    seq![
        StepView::Body { body: d.body },
        StepView::ProcessHeaders,
        StepView::ProcessBody,
        StepView::QueryIntervention,
        StepView::Logging,
    ]
}

/// The complete evaluation sequence a descriptor induces.
pub open spec fn expected_plan(d: DescriptorView, client_ip_valid: bool) -> Seq<StepView> {
    plan_prefix(d, client_ip_valid) + header_steps(d.headers) + plan_suffix(d)
}

/// The mathematical content of a built step sequence.
pub open spec fn plan_view(steps: Seq<EngineStep>) -> Seq<StepView> {
    steps.map_values(|s: EngineStep| s@)
}

proof fn lemma_plan_view_push(s: Seq<EngineStep>, e: EngineStep)
    ensures
        plan_view(s.push(e)) == plan_view(s).push(e@),
{
    assert(plan_view(s.push(e)) =~= plan_view(s).push(e@));
}

/// Builds the evaluation sequence for one request descriptor.
/// `client_ip_valid` says whether the client address parses as an IP
/// address; when it does not, the plan registers the unspecified address
/// instead and evaluation still proceeds through every phase.
pub fn evaluation_steps(d: RequestDescriptor, client_ip_valid: bool) -> (steps: Vec<EngineStep>)
    ensures
        plan_view(steps@) == expected_plan(d@, client_ip_valid),
{
    let ghost dv: DescriptorView = d@;
    let RequestDescriptor { uri, method, version, headers, body, client_ip, client_port, server_addr, id } =
        d;
    let mut steps: Vec<EngineStep> = Vec::new();
    steps.push(EngineStep::Begin { id });
    let ip: String = if client_ip_valid {
        client_ip
    } else {
        String::from_str("0.0.0.0")
    };
    steps.push(
        EngineStep::Connection {
            client_ip: ip,
            client_port,
            server_addr,
            server_port: SERVER_PROBE_PORT,
        },
    );
    steps.push(EngineStep::Uri { uri, method, version });
    proof {
        assert(plan_view(steps@) =~= plan_prefix(dv, client_ip_valid));
    }
    let mut i: usize = 0;
    while i < headers.len()
        invariant
            i <= headers.len(),
            headers.deep_view() == dv.headers,
            headers.deep_view().len() == headers@.len(),
            plan_view(steps@) =~= plan_prefix(dv, client_ip_valid) + header_steps(
                dv.headers.take(i as int),
            ),
        decreases headers.len() - i,
    {
        let pair = &headers[i];
        let ghost name_v: Seq<char> = pair.0@;
        let ghost values_v: Seq<Seq<char>> = pair.1.deep_view();
        proof {
            assert(dv.headers[i as int] == (name_v, values_v));
            assert(value_steps(name_v, values_v.take(0)) =~= Seq::<StepView>::empty());
        }
        let mut k: usize = 0;
        while k < pair.1.len()
            invariant
                k <= pair.1.len(),
                i < headers.len(),
                name_v == pair.0@,
                values_v == pair.1.deep_view(),
                values_v.len() == pair.1@.len(),
                plan_view(steps@) =~= plan_prefix(dv, client_ip_valid) + header_steps(
                    dv.headers.take(i as int),
                ) + value_steps(name_v, values_v.take(k as int)),
            decreases pair.1.len() - k,
        {
            let ghost pre: Seq<EngineStep> = steps@;
            let name = pair.0.clone();
            let value = pair.1[k].clone();
            proof {
                assert(value@ == values_v[k as int]);
            }
            let step = EngineStep::Header { name, value };
            proof {
                lemma_plan_view_push(pre, step);
                assert(step@ == (StepView::Header { name: name_v, value: values_v[k as int] }));
            }
            steps.push(step);
            proof {
                assert(values_v.take(k + 1).drop_last() =~= values_v.take(k as int));
                assert(values_v.take(k + 1).last() == values_v[k as int]);
                assert(value_steps(name_v, values_v.take(k + 1)) == value_steps(
                    name_v,
                    values_v.take(k as int),
                ).push(StepView::Header { name: name_v, value: values_v[k as int] }));
                assert(plan_view(steps@) =~= plan_prefix(dv, client_ip_valid) + header_steps(
                    dv.headers.take(i as int),
                ) + value_steps(name_v, values_v.take(k + 1)));
            }
            k = k + 1;
        }
        proof {
            assert(values_v.take(pair.1@.len() as int) =~= values_v);
            assert(dv.headers.take(i + 1).drop_last() =~= dv.headers.take(i as int));
            assert(dv.headers.take(i + 1).last() == dv.headers[i as int]);
            assert(header_steps(dv.headers.take(i + 1)) == header_steps(dv.headers.take(i as int))
                + value_steps(name_v, values_v));
            assert(plan_view(steps@) =~= plan_prefix(dv, client_ip_valid) + header_steps(
                dv.headers.take(i + 1),
            ));
        }
        i = i + 1;
    }
    proof {
        assert(dv.headers.take(headers@.len() as int) =~= dv.headers);
    }
    let ghost mid: Seq<StepView> = plan_prefix(dv, client_ip_valid) + header_steps(dv.headers);
    let ghost pre0: Seq<EngineStep> = steps@;
    steps.push(EngineStep::Body { body });
    let ghost pre1: Seq<EngineStep> = steps@;
    steps.push(EngineStep::ProcessHeaders);
    let ghost pre2: Seq<EngineStep> = steps@;
    steps.push(EngineStep::ProcessBody);
    let ghost pre3: Seq<EngineStep> = steps@;
    steps.push(EngineStep::QueryIntervention);
    let ghost pre4: Seq<EngineStep> = steps@;
    steps.push(EngineStep::Logging);
    proof {
        lemma_plan_view_push(pre0, pre1.last());
        lemma_plan_view_push(pre1, pre2.last());
        lemma_plan_view_push(pre2, pre3.last());
        lemma_plan_view_push(pre3, pre4.last());
        lemma_plan_view_push(pre4, steps@.last());
        assert(plan_view(steps@) =~= mid + plan_suffix(dv));
        assert(plan_view(steps@) =~= expected_plan(dv, client_ip_valid));
    }
    steps
}

impl ModSecurityWAF {
    /// Payload phase: assembles the request snapshot from the proxy's
    /// transaction attributes and the captured body, derives the exact
    /// engine evaluation sequence, and chooses the submission mode. The
    /// filter state — in particular the last-known intervention — is left
    /// untouched: the payload phase itself never records a decision; only
    /// resolving the blocking wait (run solely in awaited mode) does.
    pub fn http_payload(
        &mut self,
        attrs: RequestAttributes,
        body: Option<Vec<u8>>,
        client_ip_valid: bool,
    ) -> (r: (Vec<EngineStep>, SubmissionMode))
        ensures
            *final(self) == *old(self),
            plan_view(r.0@) == expected_plan(
                spec_descriptor(*old(self), attrs, body),
                client_ip_valid,
            ),
            r.1 == old(self).spec_submission_mode(),
            r.1 is Awaited <==> old(self).blocking,
    {
        let descriptor = self.build_descriptor(attrs, body);
        let steps = evaluation_steps(descriptor, client_ip_valid);
        let mode = self.submission_mode();
        (steps, mode)
    }
}

/// Law: determinism of the evaluation pipeline. Two request descriptors
/// with identical field values, dispatched with the same address-parse
/// outcome, induce identical evaluation sequences — so a deterministic
/// engine over the same loaded ruleset returns identical interventions.
pub proof fn lemma_evaluation_deterministic(
    d1: RequestDescriptor,
    d2: RequestDescriptor,
    client_ip_valid: bool,
    p1: Vec<EngineStep>,
    p2: Vec<EngineStep>,
)
    requires
        d1@ == d2@,
        call_ensures(evaluation_steps, (d1, client_ip_valid), p1),
        call_ensures(evaluation_steps, (d2, client_ip_valid), p2),
    ensures
        plan_view(p1@) == plan_view(p2@),
{
}

/// Law: connection-info fallback. When the client address does not parse,
/// the plan registers the unspecified address in its place — and the
/// evaluation still runs to completion: the plan always ends with the
/// decision query followed by the logging phase.
pub proof fn lemma_invalid_client_ip_falls_back(d: DescriptorView)
    ensures
        expected_plan(d, false).len() >= 8,
        expected_plan(d, false)[1] == (StepView::Connection {
            client_ip: unspecified_addr(),
            client_port: d.client_port,
            server_addr: d.server_addr,
            server_port: SERVER_PROBE_PORT,
        }),
        expected_plan(d, false)[expected_plan(d, false).len() - 2] == StepView::QueryIntervention,
        expected_plan(d, false).last() == StepView::Logging,
{
}

} // verus!
