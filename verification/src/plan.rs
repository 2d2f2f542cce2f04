//! The preparation of a run.
//!
//! Everything that can keep a run from starting is found here, before the
//! first probe: a run is prepared whole, or not at all.

use crate::credential::{credentials_of, has_separator, parse_wordlist, ConfigError};
use crate::registry::{first_occurrences, HostRegistry};
use crate::task_space::{build, cross_product, lemma_cross_product_place, ProbeTask};
use vstd::prelude::*;

verus! {

/// A run that is ready to start: the hosts with their flags, none set, and
/// the tasks in the order in which they are to be handed out.
pub struct Plan {
    pub registry: HostRegistry,
    pub tasks: Vec<ProbeTask>,
}

impl Plan {
    /// Prepares a run from the lines of the host list and of the word list.
    ///
    /// If a line of the word list holds no `:`, the first such line is
    /// reported and there is no plan, so no task and no probe. Otherwise the
    /// hosts are the distinct addresses in the order of their first
    /// appearance, and the tasks are all hosts with all credentials.
    pub fn prepare(addresses: Vec<String>, wordlist: &Vec<String>) -> (prepared: Result<
        Plan,
        ConfigError,
    >)
        ensures
            match prepared {
                Ok(plan) => {
                    &&& forall|i: int|
                        0 <= i < wordlist.len() ==> has_separator(#[trigger] wordlist[i]@)
                    &&& plan.registry@.wf()
                    &&& plan.registry@.untouched()
                    &&& plan.registry@.addresses() == first_occurrences(addresses.deep_view())
                    &&& plan.tasks.deep_view() == cross_product(
                        plan.registry@.hosts,
                        credentials_of(wordlist.deep_view()),
                    )
                    &&& forall|k: int|
                        0 <= k < plan.tasks.len() ==> (#[trigger] plan.tasks[k]).host.index
                            < plan.registry@.hosts.len()
                },
                Err(ConfigError::MalformedCredential { line }) => {
                    &&& line < wordlist.len()
                    &&& !has_separator(wordlist[line as int]@)
                    &&& forall|i: int| 0 <= i < line ==> has_separator(#[trigger] wordlist[i]@)
                },
            },
    {
        let credentials = match parse_wordlist(wordlist) {
            Ok(credentials) => credentials,
            Err(error) => {
                return Err(error);
            },
        };
        let registry = HostRegistry::register(addresses);
        let hosts = registry.hosts();
        let tasks = build(&hosts, &credentials);
        proof {
            let hosts = registry@.hosts;
            let all = cross_product(hosts, credentials.deep_view());
            assert(tasks.deep_view().len() == tasks.len());
            assert(credentials.deep_view().len() == credentials.len());
            assert(all.len() == hosts.len() * credentials.len());
            assert forall|k: int| 0 <= k < tasks.len() implies (#[trigger] tasks[k]).host.index
                < hosts.len() by {
                lemma_cross_product_place(hosts.len() as int, credentials.len() as int, k);
                assert(tasks.deep_view()[k] == all[k]);
            }
        }
        Ok(Plan { registry, tasks })
    }
}

} // verus!
