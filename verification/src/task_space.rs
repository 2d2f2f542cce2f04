//! The tasks of a run: every host paired with every credential.
//!
//! The tasks are listed host by host: all the credentials for the first host,
//! in the order of the word list, then all of them for the second host, and
//! so on. This is the order in which the tasks are handed out, not the order
//! in which they finish.

use crate::credential::{Credential, CredentialView};
use crate::registry::{Host, HostView};
use vstd::arithmetic::div_mod::{
    lemma_div_pos_is_pos, lemma_fundamental_div_mod_converse, lemma_mod_bound,
    lemma_multiply_divide_lt,
};
use vstd::prelude::*;

verus! {

/// One probe to make: a credential to try on a host.
#[derive(Debug)]
pub struct ProbeTask {
    pub host: Host,
    pub credential: Credential,
}

/// What a `ProbeTask` stands for.
pub struct ProbeTaskView {
    pub host: HostView,
    pub credential: CredentialView,
}

impl View for ProbeTask {
    type V = ProbeTaskView;

    open spec fn view(&self) -> ProbeTaskView {
        ProbeTaskView { host: self.host@, credential: self.credential@ }
    }
}

impl DeepView for ProbeTask {
    type V = ProbeTaskView;

    open spec fn deep_view(&self) -> ProbeTaskView {
        self@
    }
}

/// All pairs of a host and a credential, the hosts as the outer dimension:
/// the task at place `k` pairs host `k / c` with credential `k % c`, where
/// `c` is the number of credentials.
pub open spec fn cross_product(
    hosts: Seq<HostView>,
    credentials: Seq<CredentialView>,
) -> Seq<ProbeTaskView> {
    Seq::new(
        hosts.len() * credentials.len(),
        |k: int|
            ProbeTaskView {
                host: hosts[k / (credentials.len() as int)],
                credential: credentials[k % (credentials.len() as int)],
            },
    )
}

/// Every place `k` of the cross product names a host and a credential.
pub proof fn lemma_cross_product_place(h: int, c: int, k: int)
    requires
        0 <= h,
        0 <= c,
        0 <= k < h * c,
    ensures
        0 <= k / c < h,
        0 <= k % c < c,
{
    assert(c > 0) by (nonlinear_arith)
        requires
            0 <= c,
            0 <= k < h * c,
    ;
    assert(c * h == h * c) by (nonlinear_arith);
    lemma_div_pos_is_pos(k, c);
    lemma_mod_bound(k, c);
    lemma_multiply_divide_lt(k, c, h);
}

/// The task of host `i` and credential `j` stands at place `i * c + j`.
pub proof fn lemma_cross_product_at(
    hosts: Seq<HostView>,
    credentials: Seq<CredentialView>,
    i: int,
    j: int,
)
    requires
        0 <= i < hosts.len(),
        0 <= j < credentials.len(),
    ensures
        0 <= i * credentials.len() + j < cross_product(hosts, credentials).len(),
        cross_product(hosts, credentials)[i * credentials.len() + j] == (ProbeTaskView {
            host: hosts[i],
            credential: credentials[j],
        }),
{
    let c = credentials.len() as int;
    let h = hosts.len() as int;
    assert(0 <= i * c && i * c + c <= h * c) by (nonlinear_arith)
        requires
            0 <= i < h,
            0 < c,
    ;
    lemma_fundamental_div_mod_converse(i * c + j, c, i, j);
}

/// Without hosts, or without credentials, there is no task.
pub proof fn lemma_cross_product_empty(hosts: Seq<HostView>, credentials: Seq<CredentialView>)
    requires
        hosts.len() == 0 || credentials.len() == 0,
    ensures
        cross_product(hosts, credentials).len() == 0,
{
    assert(hosts.len() * credentials.len() == 0) by (nonlinear_arith)
        requires
            hosts.len() == 0 || credentials.len() == 0,
    ;
}

/// Lists the tasks of a run: each host with each credential, host by host.
/// Without hosts, or without credentials, there is no task.
pub fn build(hosts: &Vec<Host>, credentials: &Vec<Credential>) -> (tasks: Vec<ProbeTask>)
    ensures
        tasks.deep_view() == cross_product(hosts.deep_view(), credentials.deep_view()),
        tasks.len() == hosts.len() * credentials.len(),
{
    let ghost c = credentials.len() as int;
    let mut tasks: Vec<ProbeTask> = Vec::new();
    let mut i: usize = 0;
    while i < hosts.len()
        invariant
            i <= hosts.len(),
            c == credentials.len(),
            tasks.len() == i * c,
            forall|k: int|
                0 <= k < tasks.len() ==> (#[trigger] tasks[k])@ == (ProbeTaskView {
                    host: hosts[k / c]@,
                    credential: credentials[k % c]@,
                }),
        decreases hosts.len() - i,
    {
        let mut j: usize = 0;
        while j < credentials.len()
            invariant
                i < hosts.len(),
                j <= credentials.len(),
                c == credentials.len(),
                tasks.len() == i * c + j,
                forall|k: int|
                    0 <= k < tasks.len() ==> (#[trigger] tasks[k])@ == (ProbeTaskView {
                        host: hosts[k / c]@,
                        credential: credentials[k % c]@,
                    }),
            decreases credentials.len() - j,
        {
            proof {
                lemma_fundamental_div_mod_converse(i * c + j, c, i as int, j as int);
            }
            tasks.push(ProbeTask { host: hosts[i].clone(), credential: credentials[j].clone() });
            j += 1;
        }
        proof {
            assert(i * c + c == (i + 1) * c) by (nonlinear_arith);
        }
        i += 1;
    }
    proof {
        let all = cross_product(hosts.deep_view(), credentials.deep_view());
        assert forall|k: int| 0 <= k < tasks.len() implies tasks.deep_view()[k] == all[k] by {
            lemma_cross_product_place(hosts.len() as int, c, k);
        }
        assert(tasks.deep_view() =~= all);
    }
    tasks
}

} // verus!
