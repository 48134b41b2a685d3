use vstd::prelude::*;

use crate::error::Error;

verus! {

/// The kind of session a page asks for.
#[derive(Clone, Copy, Debug, PartialEq, Eq, Structural)]
pub enum SessionMode {
    Inline,
    ImmersiveVR,
    ImmersiveAR,
}

/// How rendered content is combined with the user's surroundings.
#[derive(Clone, Copy, Debug, PartialEq, Eq, Structural)]
pub enum EnvironmentBlendMode {
    Opaque,
    AlphaBlend,
    Additive,
}

/// Identifies one session for the lifetime of the process.
#[derive(Clone, Copy, Debug, PartialEq, Eq, Hash, Structural)]
pub struct SessionId(pub u32);

/// The features a page requires and the features it would like to have.
#[derive(Clone, Debug)]
pub struct SessionInit {
    pub required_features: Vec<String>,
    pub optional_features: Vec<String>,
}

/// The character sequences of a list of feature names.
pub open spec fn feature_names(v: Seq<String>) -> Seq<Seq<char>> {
    v.map_values(|s: String| s@)
}

/// Features granted without the backend's say: `viewer` always, and `local`
/// outside inline sessions.
pub open spec fn is_default_feature(mode: SessionMode, f: Seq<char>) -> bool {
    f == "viewer"@ || (f == "local"@ && mode != SessionMode::Inline)
}

/// A feature is granted when it is default-granted or the backend supports it.
pub open spec fn is_granted(mode: SessionMode, f: Seq<char>, supported: Seq<Seq<char>>) -> bool {
    is_default_feature(mode, f) || supported.contains(f)
}

/// The optional features that are granted, in request order.
pub open spec fn granted_optional(
    mode: SessionMode,
    optional: Seq<Seq<char>>,
    supported: Seq<Seq<char>>,
) -> Seq<Seq<char>> {
    optional.filter(|f: Seq<char>| is_granted(mode, f, supported))
}

/// Some required feature is not granted.
pub open spec fn has_unsupported(
    mode: SessionMode,
    required: Seq<Seq<char>>,
    supported: Seq<Seq<char>>,
) -> bool {
    exists|i: int| 0 <= i < required.len() && !is_granted(mode, #[trigger] required[i], supported)
}

/// `i` is the position of the first required feature that is not granted.
pub open spec fn is_first_unsupported(
    mode: SessionMode,
    required: Seq<Seq<char>>,
    supported: Seq<Seq<char>>,
    i: int,
) -> bool {
    &&& 0 <= i < required.len()
    &&& !is_granted(mode, required[i], supported)
    &&& forall|j: int| 0 <= j < i ==> is_granted(mode, #[trigger] required[j], supported)
}

/// The result of negotiating `required` and `optional` against `supported`.
pub open spec fn validate_spec(
    mode: SessionMode,
    required: Seq<Seq<char>>,
    optional: Seq<Seq<char>>,
    supported: Seq<Seq<char>>,
    r: Result<Seq<Seq<char>>, Seq<char>>,
) -> bool {
    if has_unsupported(mode, required, supported) {
        exists|i: int|
            is_first_unsupported(mode, required, supported, i) && r == Err::<Seq<Seq<char>>, Seq<char>>(
                required[i],
            )
    } else {
        r == Ok::<Seq<Seq<char>>, Seq<char>>(required + granted_optional(mode, optional, supported))
    }
}

/// The abstract outcome of a negotiation: the granted names, or the name of the
/// feature that was refused.
pub open spec fn negotiation_view(r: Result<Vec<String>, Error>) -> Result<Seq<Seq<char>>, Seq<char>> {
    match r {
        Ok(v) => Ok(feature_names(v@)),
        Err(Error::UnsupportedFeature(name)) => Err(name@),
        Err(_) => Err(Seq::empty()),
    }
}

fn is_default_feature_exec(mode: SessionMode, f: &String) -> (r: bool)
    ensures
        r == is_default_feature(mode, f@),
{
    let viewer = String::from_str("viewer");
    let local = String::from_str("local");
    *f == viewer || (*f == local && mode != SessionMode::Inline)
}

fn supports(supported: &[String], f: &String) -> (r: bool)
    ensures
        r == feature_names(supported@).contains(f@),
{
    let mut i: usize = 0;
    while i < supported.len()
        invariant
            0 <= i <= supported@.len(),
            forall|j: int| 0 <= j < i ==> supported@[j]@ != f@,
        decreases supported@.len() - i,
    {
        if supported[i] == *f {
            assert(feature_names(supported@)[i as int] == f@);
            return true;
        }
        i = i + 1;
    }
    assert(!feature_names(supported@).contains(f@)) by {
        if feature_names(supported@).contains(f@) {
            let k = choose|k: int|
                0 <= k < feature_names(supported@).len() && feature_names(supported@)[k] == f@;
            assert(supported@[k]@ == f@);
        }
    }
    false
}

impl SessionInit {
    /// Negotiates the requested features for `mode` against what a backend
    /// supports. Fails on the first required feature that is neither
    /// default-granted nor supported; otherwise grants every required feature,
    /// then each optional feature that is default-granted or supported, both in
    /// request order.
    pub fn validate(&self, mode: SessionMode, supported: &[String]) -> (r: Result<Vec<String>, Error>)
        ensures
            validate_spec(
                mode,
                feature_names(self.required_features@),
                feature_names(self.optional_features@),
                feature_names(supported@),
                negotiation_view(r),
            ),
            r is Err ==> r->Err_0 is UnsupportedFeature,
    {
        let ghost req = feature_names(self.required_features@);
        let ghost opt = feature_names(self.optional_features@);
        let ghost sup = feature_names(supported@);
        let mut i: usize = 0;
        while i < self.required_features.len()
            invariant
                0 <= i <= self.required_features@.len(),
                req == feature_names(self.required_features@),
                sup == feature_names(supported@),
                forall|j: int| 0 <= j < i ==> is_granted(mode, #[trigger] req[j], sup),
            decreases self.required_features@.len() - i,
        {
            let f = &self.required_features[i];
            if !is_default_feature_exec(mode, f) && !supports(supported, f) {
                assert(is_first_unsupported(mode, req, sup, i as int));
                return Err(Error::UnsupportedFeature(f.clone()));
            }
            i = i + 1;
        }
        let mut granted = self.required_features.clone();
        assert(feature_names(granted@) =~= req + granted_optional(mode, opt.take(0), sup));
        let mut k: usize = 0;
        while k < self.optional_features.len()
            invariant
                0 <= k <= self.optional_features@.len(),
                req == feature_names(self.required_features@),
                opt == feature_names(self.optional_features@),
                sup == feature_names(supported@),
                feature_names(granted@) == req + granted_optional(mode, opt.take(k as int), sup),
            decreases self.optional_features@.len() - k,
        {
            let f = &self.optional_features[k];
            assert(opt.take(k + 1) =~= opt.take(k as int).push(f@));
            proof {
                opt.take(k as int).lemma_filter_push(f@, |g: Seq<char>| is_granted(mode, g, sup));
            }
            if is_default_feature_exec(mode, f) || supports(supported, f) {
                let ghost before = granted@;
                granted.push(f.clone());
                assert(feature_names(granted@) =~= feature_names(before).push(f@));
                assert(feature_names(granted@) =~= req + granted_optional(
                    mode,
                    opt.take(k + 1),
                    sup,
                ));
            } else {
                assert(feature_names(granted@) =~= req + granted_optional(
                    mode,
                    opt.take(k + 1),
                    sup,
                ));
            }
            k = k + 1;
        }
        assert(opt.take(k as int) =~= opt);
        assert(!has_unsupported(mode, req, sup));
        Ok(granted)
    }
}

/// Handed to a backend once per session request: carries the id of the session
/// that may be created and the sender on which its frames go out, and collects
/// a session that must be stepped from the registry's own thread.
pub struct SessionBuilder<T, F> {
    id: SessionId,
    frame_sender: F,
    resident: Vec<T>,
}

impl<T, F> SessionBuilder<T, F> {
    /// The sessions that were handed over to be stepped on the main thread.
    pub closed spec fn resident(&self) -> Seq<T> {
        self.resident@
    }

    pub closed spec fn spec_id(&self) -> SessionId {
        self.id
    }

    pub closed spec fn spec_frame_sender(&self) -> F {
        self.frame_sender
    }

    pub fn new(id: SessionId, frame_sender: F) -> (r: Self)
        ensures
            r.spec_id() == id,
            r.spec_frame_sender() == frame_sender,
            r.resident() == Seq::<T>::empty(),
    {
        SessionBuilder { id, frame_sender, resident: Vec::new() }
    }

    pub fn id(&self) -> (r: SessionId)
        ensures
            r == self.spec_id(),
    {
        self.id
    }

    /// The sender on which the session's frames are delivered.
    pub fn frame_sender(&self) -> (r: &F)
        ensures
            *r == self.spec_frame_sender(),
    {
        &self.frame_sender
    }

    /// Hands over a session that the registry is to step once per tick.
    pub fn run_on_main_thread(&mut self, session: T)
        ensures
            final(self).spec_id() == old(self).spec_id(),
            final(self).spec_frame_sender() == old(self).spec_frame_sender(),
            final(self).resident() == old(self).resident().push(session),
    {
        self.resident.push(session);
    }

    /// Gives up the builder, returning the sessions handed over to it.
    pub fn into_resident(self) -> (r: Vec<T>)
        ensures
            r@ == self.resident(),
    {
        self.resident
    }
}

} // verus!
