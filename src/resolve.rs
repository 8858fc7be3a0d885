//! Choosing the TeX backend, in priority order: an override from the
//! environment, the project's setting, an engine embedded in the host
//! program, and finally the first external engine that answers a probe.

use vstd::prelude::*;
use crate::error::TexError;
use crate::tex::{config_text, opt_view, parsed_config, unknown_distro_message, find_char, TexConfig, TexDistro};

verus! {

/// The model of a configuration: its kind and its program.
pub type ConfigModel = (TexDistro, Option<Seq<char>>);

/// The model of a configuration value.
pub open spec fn model(c: TexConfig) -> ConfigModel {
    (c.distro, opt_view(c.program))
}

/// The spelling `kind[:program]` of a configuration model.
pub open spec fn model_text(m: ConfigModel) -> Seq<char> {
    config_text(m.0, m.1)
}

/// Where the configurations to try came from.
#[derive(Clone, Copy, Debug, PartialEq, Eq, Structural)]
pub enum ConfigOrigin {
    Environment,
    ProjectFile,
    Embedded,
    Detected,
}

/// The configurations to try, in order, and where they came from.
pub struct Resolution {
    pub candidates: Vec<TexConfig>,
    pub origin: ConfigOrigin,
}

/// The models of a resolution's candidates.
pub open spec fn candidate_models(r: Resolution) -> Seq<ConfigModel> {
    r.candidates@.map_values(|c: TexConfig| model(c))
}

/// The plan: the origin and the candidates, or the text of the error for a
/// kind that the environment names but that does not exist.
pub open spec fn planned(
    env_value: Option<Seq<char>>,
    from_settings: Option<ConfigModel>,
    embedded_exe: Option<Seq<char>>,
) -> Result<(ConfigOrigin, Seq<ConfigModel>), Seq<char>> {
    match env_value {
        Some(v) => match parsed_config(v) {
            Some(c) => Ok((ConfigOrigin::Environment, seq![c])),
            None => Err(unknown_distro_message(v.take(find_char(v, ':')))),
        },
        None => match from_settings {
            Some(c) => Ok((ConfigOrigin::ProjectFile, seq![c])),
            None => match embedded_exe {
                Some(exe) => Ok(
                    (ConfigOrigin::Embedded, seq![(TexDistro::TectonicEmbedded, Some(exe))]),
                ),
                None => Ok(
                    (
                        ConfigOrigin::Detected,
                        seq![(TexDistro::TexLive, None), (TexDistro::Tectonic, None)],
                    ),
                ),
            },
        },
    }
}

/// A copy of a configuration.
pub fn copy_config(c: &TexConfig) -> (r: TexConfig)
    ensures
        model(r) == model(*c),
{
    let program = match &c.program {
        Some(p) => Some(p.clone()),
        None => None,
    };
    TexConfig { distro: c.distro, program }
}

/// Lists the configurations to try, in order.
pub fn plan_resolution(
    env_value: Option<&str>,
    from_settings: Option<&TexConfig>,
    embedded_exe: Option<&str>,
) -> (r: Result<Resolution, TexError>)
    ensures
        match (
            r,
            planned(
                match env_value {
                    Some(v) => Some(v@),
                    None => None,
                },
                match from_settings {
                    Some(c) => Some(model(*c)),
                    None => None,
                },
                match embedded_exe {
                    Some(e) => Some(e@),
                    None => None,
                },
            ),
        ) {
            (Ok(res), Ok((origin, cands))) => res.origin == origin && candidate_models(res)
                == cands,
            (Err(TexError::UnknownDistro(m)), Err(pm)) => m@ == pm,
            _ => false,
        },
{
    let mut candidates: Vec<TexConfig> = Vec::new();
    let origin;
    if let Some(v) = env_value {
        let c = TexConfig::parse(v)?;
        candidates.push(c);
        origin = ConfigOrigin::Environment;
    } else if let Some(c) = from_settings {
        candidates.push(copy_config(c));
        origin = ConfigOrigin::ProjectFile;
    } else if let Some(exe) = embedded_exe {
        candidates.push(
            TexConfig { distro: TexDistro::TectonicEmbedded, program: Some(exe.to_string()) },
        );
        origin = ConfigOrigin::Embedded;
    } else {
        candidates.push(TexConfig::with_distro(TexDistro::TexLive));
        candidates.push(TexConfig::with_distro(TexDistro::Tectonic));
        origin = ConfigOrigin::Detected;
    }
    let res = Resolution { candidates, origin };
    assert(candidate_models(res) =~= planned(
        match env_value {
            Some(v) => Some(v@),
            None => None,
        },
        match from_settings {
            Some(c) => Some(model(*c)),
            None => None,
        },
        match embedded_exe {
            Some(e) => Some(e@),
            None => None,
        },
    )->Ok_0.1);
    Ok(res)
}

/// Index of the first `true` in `v`, or its length when there is none.
pub open spec fn first_true(v: Seq<bool>) -> int
    decreases v.len(),
{
    if v.len() == 0 || v[0] {
        0
    } else {
        1 + first_true(v.drop_first())
    }
}

/// What probing the candidates concludes, given whether each answered:
/// the index of the first that answered, or the error.
pub open spec fn concluded(
    origin: ConfigOrigin,
    cands: Seq<ConfigModel>,
    answered: Seq<bool>,
) -> Result<int, Option<Seq<char>>> {
    let i = first_true(answered);
    if i < answered.len() {
        Ok(i)
    } else if origin == ConfigOrigin::Environment || origin == ConfigOrigin::ProjectFile {
        Err(Some(model_text(cands[0])))
    } else {
        Err(None)
    }
}

proof fn lemma_first_true(v: Seq<bool>, i: int)
    requires
        0 <= i <= v.len(),
        forall|j: int| 0 <= j < i ==> !#[trigger] v[j],
        i == v.len() || v[i],
    ensures
        first_true(v) == i,
    decreases i,
{
    if i > 0 {
        let t = v.drop_first();
        assert forall|j: int| 0 <= j < i - 1 implies !#[trigger] t[j] by {
            assert(t[j] == v[j + 1]);
        }
        if i < v.len() {
            assert(t[i - 1] == v[i]);
        }
        lemma_first_true(t, i - 1);
    }
}

/// The candidate to probe next, given whether those probed so far
/// answered: none once one answered or all were probed.
pub fn next_probe(res: &Resolution, answered: &Vec<bool>) -> (r: Option<usize>)
    ensures
        r == if first_true(answered@) < answered@.len() || answered@.len() >= res.candidates@.len() {
            None::<usize>
        } else {
            Some(answered@.len() as usize)
        },
{
    let mut i: usize = 0;
    while i < answered.len()
        invariant
            i <= answered.len(),
            forall|j: int| 0 <= j < i ==> !#[trigger] answered@[j],
        decreases answered.len() - i,
    {
        if answered[i] {
            proof {
                lemma_first_true(answered@, i as int);
            }
            return None;
        }
        i += 1;
    }
    proof {
        lemma_first_true(answered@, i as int);
    }
    if answered.len() >= res.candidates.len() {
        None
    } else {
        Some(answered.len())
    }
}

/// Picks the first candidate that answered its probe (`answered[i]` tells
/// whether candidate `i` did; probing stops at the first that does). When
/// none did, an explicitly configured backend is named in the error.
pub fn conclude_resolution(res: Resolution, answered: &Vec<bool>) -> (r: Result<
    TexConfig,
    TexError,
>)
    requires
        1 <= res.candidates.len(),
        answered.len() <= res.candidates.len(),
    ensures
        match (r, concluded(res.origin, candidate_models(res), answered@)) {
            (Ok(c), Ok(i)) => model(c) == candidate_models(res)[i],
            (Err(TexError::ProbeFailed(m)), Err(Some(t))) => m@ == t,
            (Err(TexError::NoBackend), Err(None)) => true,
            _ => false,
        },
{
    let ghost models = candidate_models(res);
    let mut res = res;
    let mut i: usize = 0;
    while i < answered.len() && !answered[i]
        invariant
            i <= answered.len() <= res.candidates.len(),
            forall|j: int| 0 <= j < i ==> !#[trigger] answered@[j],
        decreases answered.len() - i,
    {
        i += 1;
    }
    proof {
        lemma_first_true(answered@, i as int);
    }
    if i < answered.len() {
        let c = res.candidates.remove(i);
        assert(model(c) == models[i as int]);
        Ok(c)
    } else if res.origin == ConfigOrigin::Environment || res.origin == ConfigOrigin::ProjectFile {
        assert(model(res.candidates@[0]) == models[0]);
        Err(TexError::ProbeFailed(res.candidates[0].to_text()))
    } else {
        Err(TexError::NoBackend)
    }
}

/// An override from the environment that names a known kind is the only
/// candidate, whatever the project file and the build offer; the backend
/// is then that override if it answers its probe, and an error naming it
/// if it does not.
pub proof fn lemma_env_override_wins(
    v: Seq<char>,
    from_settings: Option<ConfigModel>,
    embedded_exe: Option<Seq<char>>,
    answered: bool,
)
    requires
        parsed_config(v) is Some,
    ensures
        planned(Some(v), from_settings, embedded_exe) == Ok::<_, Seq<char>>(
            (ConfigOrigin::Environment, seq![parsed_config(v)->0]),
        ),
        answered ==> concluded(ConfigOrigin::Environment, seq![parsed_config(v)->0], seq![answered])
            == Ok::<int, Option<Seq<char>>>(0),
        !answered ==> concluded(ConfigOrigin::Environment, seq![parsed_config(v)->0], seq![answered])
            == Err::<int, Option<Seq<char>>>(
            Some(model_text(parsed_config(v)->0)),
        ),
{
    let s = seq![answered];
    lemma_first_true(s, if answered { 0 } else { 1 });
}

/// An override from the environment that names no known kind is an error
/// before any candidate is listed, so before any probe.
pub proof fn lemma_env_unknown_fails_first(
    v: Seq<char>,
    from_settings: Option<ConfigModel>,
    embedded_exe: Option<Seq<char>>,
)
    requires
        parsed_config(v) is None,
    ensures
        planned(Some(v), from_settings, embedded_exe) is Err,
{
}

} // verus!
