//! The providers a configuration uses: local aliases mapped to a source
//! identifier and a version constraint.

use vstd::prelude::*;

use crate::intermediate::{Attribute, GoSchema};
use crate::split::SplitSchema;

verus! {

pub struct ProviderConfig {
    pub source: String,
    pub version: String,
}

/// Local alias to provider, one entry per alias.
pub struct Providers(pub Vec<(String, ProviderConfig)>);

/// A value together with the providers it is written for.
pub struct WithProviders<T> {
    pub providers: Providers,
    pub data: T,
}

pub trait IntoWithProviders where Self: Sized {
    fn with_providers(self, providers: Providers) -> (r: WithProviders<Self>)
        ensures
            r.providers == providers,
            r.data == self,
    ;
}

impl<T> IntoWithProviders for T {
    fn with_providers(self, providers: Providers) -> (r: WithProviders<Self>) {
        WithProviders { providers, data: self }
    }
}

/// One provider with its configuration and the maps split off for it.
pub struct Provider {
    pub source: String,
    pub version: String,
    pub configuration: Vec<(String, Attribute)>,
    pub data_sources: Vec<(String, Attribute)>,
    pub resources: Vec<(String, Attribute)>,
}

impl Provider {
    /// Puts a provider's identity together with the maps split off for it, and
    /// hands back the core schema.
    pub fn from_split(config: ProviderConfig, split: SplitSchema) -> (r: (Provider, GoSchema))
        ensures
            r.0.source == config.source,
            r.0.version == config.version,
            r.0.configuration == split.provider_schema,
            r.0.data_sources == split.data_sources,
            r.0.resources == split.resources,
            r.1 == split.core_schema,
    {
        let ProviderConfig { source, version } = config;
        let SplitSchema { resources, data_sources, provider_schema, core_schema } = split;
        (Provider { source, version, configuration: provider_schema, data_sources, resources }, core_schema)
    }
}

#[derive(Debug)]
pub enum ProviderError {
    /// Two entries use the same alias.
    DuplicateAlias { alias: String },
    /// Two aliases name the same source.
    DuplicateSource { source: String, first: String, second: String },
}

/// A clash between two entries, in the model.
pub enum ProviderClash {
    Alias(Seq<char>),
    Source { source: Seq<char>, first: Seq<char>, second: Seq<char> },
}

pub open spec fn clash_view(e: ProviderError) -> ProviderClash {
    match e {
        ProviderError::DuplicateAlias { alias } => ProviderClash::Alias(alias@),
        ProviderError::DuplicateSource { source, first, second } => ProviderClash::Source {
            source: source@,
            first: first@,
            second: second@,
        },
    }
}

/// How the earlier entry `i` clashes with entry `j`: a shared alias first.
pub open spec fn clash(s: Seq<(String, ProviderConfig)>, i: int, j: int) -> Option<ProviderClash> {
    if s[i].0@ == s[j].0@ {
        Some(ProviderClash::Alias(s[j].0@))
    } else if s[i].1.source@ == s[j].1.source@ {
        Some(ProviderClash::Source { source: s[j].1.source@, first: s[i].0@, second: s[j].0@ })
    } else {
        None
    }
}

/// The first clash of entry `j` with one of the entries before `k`.
pub open spec fn clash_before(s: Seq<(String, ProviderConfig)>, j: int, k: int) -> Option<ProviderClash>
    decreases k,
{
    if k <= 0 {
        None
    } else {
        match clash_before(s, j, k - 1) {
            Some(c) => Some(c),
            None => clash(s, k - 1, j),
        }
    }
}

/// The first clash among the first `n` entries, each checked against those
/// before it.
pub open spec fn first_clash(s: Seq<(String, ProviderConfig)>, n: int) -> Option<ProviderClash>
    decreases n,
{
    if n <= 0 {
        None
    } else {
        match first_clash(s, n - 1) {
            Some(c) => Some(c),
            None => clash_before(s, n - 1, n - 1),
        }
    }
}

proof fn lemma_clash_before_stays(s: Seq<(String, ProviderConfig)>, j: int, k: int, n: int)
    requires
        0 <= k <= n,
        clash_before(s, j, k) is Some,
    ensures
        clash_before(s, j, n) == clash_before(s, j, k),
    decreases n - k,
{
    if k < n {
        lemma_clash_before_stays(s, j, k, n - 1);
    }
}

proof fn lemma_first_clash_stays(s: Seq<(String, ProviderConfig)>, k: int, n: int)
    requires
        0 <= k <= n,
        first_clash(s, k) is Some,
    ensures
        first_clash(s, n) == first_clash(s, k),
    decreases n - k,
{
    if k < n {
        lemma_first_clash_stays(s, k, n - 1);
    }
}

/// Aliases and sources both identify one entry each.
pub open spec fn aliases_bijective(s: Seq<(String, ProviderConfig)>) -> bool {
    forall|i: int, j: int|
        0 <= i < j < s.len() ==> s[i].0@ != s[j].0@ && s[i].1.source@ != s[j].1.source@
}

/// The configuration an alias denotes: the last entry for it.
pub open spec fn config_of(s: Seq<(String, ProviderConfig)>, alias: Seq<char>) -> Option<ProviderConfig>
    decreases s.len(),
{
    if s.len() == 0 {
        None
    } else if s.last().0@ == alias {
        Some(s.last().1)
    } else {
        config_of(s.drop_last(), alias)
    }
}

impl Providers {
    /// The configuration of the provider with local alias `alias`.
    pub fn config(&self, alias: &String) -> (r: Option<&ProviderConfig>)
        ensures
            match r {
                Some(c) => config_of(self.0@, alias@) == Some(*c),
                None => config_of(self.0@, alias@) is None,
            },
    {
        let s = &self.0;
        assert(s@.take(s@.len() as int) =~= s@);
        let mut i: usize = s.len();
        while i > 0
            invariant
                i <= s@.len(),
                s == &self.0,
                config_of(s@, alias@) == config_of(s@.take(i as int), alias@),
            decreases i,
        {
            proof {
                assert(s@.take(i as int).drop_last() =~= s@.take(i - 1));
                assert(s@.take(i as int).last() == s@[i - 1]);
            }
            if s[i - 1].0 == *alias {
                return Some(&s[i - 1].1);
            }
            i = i - 1;
        }
        None
    }

    /// Checks that aliases and sources correspond one to one.
    pub fn check_sources(&self) -> (r: Result<(), ProviderError>)
        ensures
            r is Ok <==> aliases_bijective(self.0@),
            match r {
                Ok(_) => first_clash(self.0@, self.0@.len() as int) is None,
                Err(e) => first_clash(self.0@, self.0@.len() as int) == Some(clash_view(e)),
            },
            r matches Err(ProviderError::DuplicateAlias { alias }) ==> exists|i: int, j: int|
                0 <= i < j < self.0@.len() && self.0@[i].0@ == alias@ && self.0@[j].0@ == alias@,
            r matches Err(ProviderError::DuplicateSource { source, first, second }) ==> exists|
                i: int,
                j: int,
            |
                0 <= i < j < self.0@.len() && self.0@[i].1.source@ == source@
                    && self.0@[j].1.source@ == source@ && self.0@[i].0@ == first@
                    && self.0@[j].0@ == second@,
    {
        let s = &self.0;
        let mut j: usize = 0;
        while j < s.len()
            invariant
                j <= s@.len(),
                s == &self.0,
                forall|a: int, b: int|
                    0 <= a < b < j ==> s@[a].0@ != s@[b].0@ && s@[a].1.source@ != s@[b].1.source@,
                first_clash(s@, j as int) is None,
            decreases s@.len() - j,
        {
            let mut i: usize = 0;
            while i < j
                invariant
                    i <= j < s@.len(),
                    s == &self.0,
                    forall|a: int, b: int|
                        0 <= a < b < j ==> s@[a].0@ != s@[b].0@ && s@[a].1.source@ != s@[b].1.source@,
                    forall|a: int|
                        0 <= a < i ==> s@[a].0@ != s@[j as int].0@ && s@[a].1.source@ != s@[j as int].1.source@,
                    first_clash(s@, j as int) is None,
                    clash_before(s@, j as int, i as int) is None,
                decreases j - i,
            {
                if s[i].0 == s[j].0 || s[i].1.source == s[j].1.source {
                    proof {
                        lemma_clash_before_stays(s@, j as int, i + 1, j as int);
                        lemma_first_clash_stays(s@, j + 1, s@.len() as int);
                    }
                }
                if s[i].0 == s[j].0 {
                    return Err(ProviderError::DuplicateAlias { alias: s[j].0.clone() });
                }
                if s[i].1.source == s[j].1.source {
                    return Err(
                        ProviderError::DuplicateSource {
                            source: s[j].1.source.clone(),
                            first: s[i].0.clone(),
                            second: s[j].0.clone(),
                        },
                    );
                }
                i = i + 1;
            }
            j = j + 1;
        }
        Ok(())
    }
}

} // verus!
