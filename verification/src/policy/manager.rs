//! The policies in force: the domain matcher, the compiled policies by id
//! and the rate limiter, held together as one state that is replaced as a
//! whole.

use vstd::prelude::*;
use vstd::hash_map::StringHashMap;
use crate::policy::cc::{no_entries, CcLimiter};
use crate::policy::compiled::{
    compile_policy, policy_compiles, policy_from, tells_of_rule, CompiledPolicy,
};
use crate::policy::domain_map::{
    entries_of, exacts_of, wildcards_of, DomainMapFile, DomainMatcher, DomainMatcherView,
};
use crate::policy::protection::compiled::CompileError;
use crate::policy::types::{PolicyFile, WafConfig};

verus! {

/// The policies in force.
pub struct PolicyState {
    pub matcher: DomainMatcher,
    pub policies: StringHashMap<CompiledPolicy>,
    /// The rate limiter. It outlives the state it is part of: a reload
    /// hands it on to the new state.
    pub cc: CcLimiter,
}

/// Holds the state in force, and the policy to fall back on where a state
/// lacks even its default policy.
pub struct PolicyManager {
    pub state: PolicyState,
    pub fallback: CompiledPolicy,
}

/// Why a set of policy files could not be put in force.
#[derive(Debug, Clone)]
pub enum PolicyLoadError {
    /// A rule of a policy does not compile.
    Compile(CompileError),
    /// No policy has the id that the domain map names as its default.
    MissingDefault { id: String },
}

impl PolicyLoadError {
    /// The error in words.
    pub fn message(&self) -> (m: String)
        ensures
            (self matches PolicyLoadError::MissingDefault { id } ==> m@ == "default policy '"@ + id@
                + "' not found"@),
            (self matches PolicyLoadError::Compile(CompileError::BadHeaderRegex { name, detail })
                ==> m@ == "bad header_regex pattern for "@ + name@ + ": "@ + detail@),
    {
        match self {
            PolicyLoadError::Compile(e) => e.message(),
            PolicyLoadError::MissingDefault { id } => {
                let mut m = "default policy '".to_owned();
                m.append(id.as_str());
                m.append("' not found");
                m
            },
        }
    }
}

/// The position of the last of `files` with id `id`, or `-1`.
pub open spec fn last_with_id(files: Seq<PolicyFile>, id: Seq<char>) -> int
    decreases files.len(),
{
    if files.len() == 0 {
        -1
    } else if files.last().id@ == id {
        files.len() - 1
    } else {
        last_with_id(files.drop_last(), id)
    }
}

pub open spec fn all_compile(files: Seq<PolicyFile>) -> bool {
    forall|i: int| 0 <= i < files.len() ==> policy_compiles(#[trigger] files[i])
}

/// Whether `policies` holds the compiled form of `files`: under each id the
/// last file of that id, compiled, and nothing else.
pub open spec fn policies_from(policies: Map<Seq<char>, CompiledPolicy>, files: Seq<PolicyFile>) -> bool {
    forall|id: Seq<char>|
        (#[trigger] policies.contains_key(id) <==> last_with_id(files, id) >= 0) && (
        policies.contains_key(id) ==> policy_from(policies[id], files[last_with_id(files, id)]))
}

/// The policy that stands in where a state lacks its default: no rules,
/// and the header/body rule engine switched off.
pub open spec fn is_fallback(p: CompiledPolicy) -> bool {
    &&& p.version == 1
    &&& p.id@ == "policy-fallback"@
    &&& !p.waf.enabled
    &&& p.waf.ruleset is None
    &&& p.precise@.len() == 0
    &&& p.base@.len() == 0
}

/// The policy for a host: the one whose id the matcher gives, where the
/// state has it; else the default policy, where the state has it; else the
/// fallback.
pub open spec fn policy_for_host(
    matcher: DomainMatcherView,
    policies: Map<Seq<char>, CompiledPolicy>,
    fallback: CompiledPolicy,
    host: Seq<char>,
) -> CompiledPolicy {
    let pid = matcher.policy_for(host);
    if policies.contains_key(pid) {
        policies[pid]
    } else if policies.contains_key(matcher.default_policy) {
        policies[matcher.default_policy]
    } else {
        fallback
    }
}

/// Finds the policy for a host among `policies`.
pub fn select_policy<'a>(
    matcher: &DomainMatcher,
    policies: &'a StringHashMap<CompiledPolicy>,
    fallback: &'a CompiledPolicy,
    host: &str,
) -> (p: &'a CompiledPolicy)
    ensures
        *p == policy_for_host(matcher@, policies@, *fallback, host@),
{
    let pid = matcher.match_policy_id(host);
    if let Some(p) = policies.get(pid.as_str()) {
        return p;
    }
    if let Some(p) = policies.get(matcher.default_policy()) {
        return p;
    }
    fallback
}

impl PolicyState {
    /// What holds of a state that was loaded: it has its default policy.
    pub open spec fn well_formed(&self) -> bool {
        self.policies@.contains_key(self.matcher@.default_policy)
    }
}

/// For every host a loaded state has a policy, and it is one of the
/// state's own, never the fallback.
pub proof fn lemma_resolution_total(st: &PolicyState, fallback: CompiledPolicy, host: Seq<char>)
    requires
        st.well_formed(),
    ensures
        exists|id: Seq<char>| #[trigger]
            st.policies@.contains_key(id) && policy_for_host(st.matcher@, st.policies@, fallback, host)
                == st.policies@[id],
{
    let pid = st.matcher@.policy_for(host);
    if st.policies@.contains_key(pid) {
        assert(st.policies@.contains_key(pid));
    } else {
        assert(st.policies@.contains_key(st.matcher@.default_policy));
    }
}

impl PolicyManager {
    /// The fallback policy is the one described by `is_fallback`.
    pub open spec fn well_formed(&self) -> bool {
        is_fallback(self.fallback)
    }

    /// A manager with `initial` in force.
    pub fn new(initial: PolicyState) -> (m: Self)
        ensures
            m.well_formed(),
            m.state == initial,
    {
        PolicyManager {
            state: initial,
            fallback: CompiledPolicy {
                version: 1,
                id: "policy-fallback".to_owned(),
                waf: WafConfig { enabled: false, ruleset: None },
                precise: Vec::new(),
                base: Vec::new(),
            },
        }
    }

    /// The state in force.
    pub fn load(&self) -> (st: &PolicyState)
        ensures
            *st == self.state,
    {
        &self.state
    }

    /// Puts `new_state` in force, its rate limiter included.
    pub fn swap(&mut self, new_state: PolicyState)
        ensures
            final(self).state == new_state,
            final(self).fallback == old(self).fallback,
    {
        self.state = new_state;
    }

    /// Puts the matcher and the policies of `new_state` in force and keeps
    /// the rate limiter with all that it has counted.
    pub fn reload(&mut self, new_state: PolicyState)
        ensures
            final(self).state.matcher == new_state.matcher,
            final(self).state.policies == new_state.policies,
            final(self).state.cc == old(self).state.cc,
            final(self).fallback == old(self).fallback,
    {
        self.state.matcher = new_state.matcher;
        self.state.policies = new_state.policies;
    }

    /// The policy that governs `host`.
    pub fn get_policy_for_host(&self, host: &str) -> (p: &CompiledPolicy)
        ensures
            *p == policy_for_host(
                self.state.matcher@,
                self.state.policies@,
                self.fallback,
                host@,
            ),
            self.state.well_formed() ==> exists|id: Seq<char>| #[trigger]
                self.state.policies@.contains_key(id) && *p == self.state.policies@[id],
    {
        proof {
            if self.state.well_formed() {
                lemma_resolution_total(&self.state, self.fallback, host@);
            }
        }
        select_policy(&self.state.matcher, &self.state.policies, &self.fallback, host)
    }

    /// Builds a state from a domain map and the policy files: the files are
    /// compiled in order and kept by id, a later file in place of an
    /// earlier one of the same id. It fails where a policy does not compile
    /// or none has the id of the default policy. The state starts with a
    /// rate limiter that has seen nothing.
    pub fn load_from_files(dm: DomainMapFile, files: &Vec<PolicyFile>) -> (r: Result<
        PolicyState,
        PolicyLoadError,
    >)
        ensures
            r is Ok <==> all_compile(files@) && last_with_id(files@, dm.default_policy@) >= 0,
            r matches Ok(st) ==> ({
                &&& st.well_formed()
                &&& st.matcher.well_formed()
                &&& st.matcher@.exact == exacts_of(entries_of(dm.domains@))
                &&& st.matcher@.wildcard == wildcards_of(entries_of(dm.domains@))
                &&& st.matcher@.default_policy == dm.default_policy@
                &&& policies_from(st.policies@, files@)
                &&& st.cc@ == no_entries()
            }),
            r matches Err(e) ==> (e is Compile <==> !all_compile(files@)),
            (r matches Err(PolicyLoadError::Compile(e)) ==> exists|i: int|
                0 <= i < files@.len() && tells_of_rule(e, #[trigger] files@[i])),
            (r matches Err(PolicyLoadError::MissingDefault { id }) ==> id@ == dm.default_policy@),
    {
        let matcher = DomainMatcher::from_file(dm);
        let mut policies: StringHashMap<CompiledPolicy> = StringHashMap::new();
        let mut i: usize = 0;
        while i < files.len()
            invariant
                0 <= i <= files.len(),
                all_compile(files@.take(i as int)),
                policies_from(policies@, files@.take(i as int)),
            decreases files.len() - i,
        {
            let ghost done = files@.take(i as int);
            let ghost next = files@.take(i + 1);
            proof {
                assert(next.drop_last() == done);
                assert(next.last() == files@[i as int]);
            }
            match compile_policy(&files[i]) {
                Ok(c) => {
                    let ghost before = policies@;
                    let id = c.id.clone();
                    policies.insert(id, c);
                    proof {
                        assert forall|j: int| 0 <= j < next.len() implies policy_compiles(
                            #[trigger] next[j],
                        ) by {
                            if j < i {
                                assert(next[j] == done[j]);
                            }
                        }
                        assert forall|k: Seq<char>|
                            (#[trigger] policies@.contains_key(k) <==> last_with_id(next, k) >= 0)
                                && (policies@.contains_key(k) ==> policy_from(
                                policies@[k],
                                next[last_with_id(next, k)],
                            )) by {
                            if k != c.id@ {
                                assert(before.contains_key(k) <==> last_with_id(done, k) >= 0);
                                if before.contains_key(k) {
                                    lemma_last_with_id(done, k);
                                    assert(next[last_with_id(done, k)] == done[last_with_id(done, k)]);
                                }
                            }
                        }
                    }
                },
                Err(e) => {
                    assert(!policy_compiles(files@[i as int]));
                    assert(tells_of_rule(e, files@[i as int]));
                    return Err(PolicyLoadError::Compile(e));
                },
            }
            i += 1;
        }
        assert(files@.take(files.len() as int) == files@);
        if !policies.contains_key(matcher.default_policy()) {
            return Err(PolicyLoadError::MissingDefault { id: matcher.default_policy().to_owned() });
        }
        Ok(PolicyState { matcher, policies, cc: CcLimiter::new() })
    }
}

pub proof fn lemma_last_with_id(files: Seq<PolicyFile>, id: Seq<char>)
    ensures
        -1 <= last_with_id(files, id) < files.len(),
        last_with_id(files, id) >= 0 ==> files[last_with_id(files, id)].id@ == id,
    decreases files.len(),
{
    if files.len() > 0 && files.last().id@ != id {
        lemma_last_with_id(files.drop_last(), id);
    }
}

} // verus!
