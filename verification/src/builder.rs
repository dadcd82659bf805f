//! The query builder: immutable accumulation of an API name, optional
//! parameters and an optional field list, and the request envelope it
//! finalizes into.

use vstd::prelude::*;
use crate::dict::{Dict, assoc_set, assoc_lookup, keys_unique};
use crate::dict::{
    lemma_assoc_set_reads_back, lemma_assoc_set_frames_others, lemma_assoc_set_keeps_unique,
};
use crate::tushare::Tushare;

verus! {

/// The mathematical content of a builder or of the request envelope it
/// produces: what the serialized request will carry.
pub struct RequestModel {
    pub api_name: Seq<char>,
    pub token: Seq<char>,
    pub params: Option<Seq<(Seq<char>, Seq<char>)>>,
    pub fields: Option<Seq<char>>,
}

/// The model of a builder fresh from the client handle: no parameters and no
/// field restriction.
pub open spec fn fresh_model(token: Seq<char>, api_name: Seq<char>) -> RequestModel {
    RequestModel { api_name: api_name, token: token, params: None, fields: None }
}

/// The model after a wholesale parameter replacement.
pub open spec fn with_params(m: RequestModel, ps: Seq<(Seq<char>, Seq<char>)>) -> RequestModel {
    RequestModel { params: Some(ps), ..m }
}

/// The model after one parameter is merged in, the new value winning on a
/// key collision.
pub open spec fn with_added_param(m: RequestModel, k: Seq<char>, v: Seq<char>) -> RequestModel {
    let base = match m.params {
        Some(ps) => ps,
        None => Seq::<(Seq<char>, Seq<char>)>::empty(),
    };
    RequestModel { params: Some(assoc_set(base, k, v)), ..m }
}

/// The model after the field list is replaced.
pub open spec fn with_fields(m: RequestModel, f: Seq<char>) -> RequestModel {
    RequestModel { fields: Some(f), ..m }
}

/// Whatever parameter set the model holds has unique keys.
pub open spec fn params_wf(m: RequestModel) -> bool {
    match m.params {
        Some(ps) => keys_unique(ps),
        None => true,
    }
}

/// A builder fresh from the client handle carries no parameters and no field
/// restriction, whatever the API name: the request envelope it finalizes into
/// holds null for both.
pub proof fn lemma_fresh_request_is_null(token: Seq<char>, api_name: Seq<char>)
    ensures
        fresh_model(token, api_name).params is None,
        fresh_model(token, api_name).fields is None,
{
}

/// Replacing the parameter set is wholesale: whatever parameters were
/// accumulated before, afterwards the model holds exactly the given set.
pub proof fn lemma_set_params_replaces(m: RequestModel, ps: Seq<(Seq<char>, Seq<char>)>)
    ensures
        with_params(m, ps).params == Some(ps),
        with_params(m, ps).api_name == m.api_name,
        with_params(m, ps).token == m.token,
        with_params(m, ps).fields == m.fields,
{
}

/// Adding the same key twice keeps the later value — the last write wins —
/// and leaves every other key bound as before. The earlier builder value
/// itself is untouched: each addition yields a new builder.
pub proof fn lemma_add_param_last_write_wins(
    m: RequestModel,
    k: Seq<char>,
    v1: Seq<char>,
    v2: Seq<char>,
)
    requires
        params_wf(m),
    ensures
        assoc_lookup(with_added_param(with_added_param(m, k, v1), k, v2).params.unwrap(), k)
            == Some(v2),
        forall|k2: Seq<char>|
            k2 != k ==> #[trigger] assoc_lookup(
                with_added_param(with_added_param(m, k, v1), k, v2).params.unwrap(),
                k2,
            ) == assoc_lookup(
                match m.params {
                    Some(ps) => ps,
                    None => Seq::<(Seq<char>, Seq<char>)>::empty(),
                },
                k2,
            ),
{
    let base = match m.params {
        Some(ps) => ps,
        None => Seq::<(Seq<char>, Seq<char>)>::empty(),
    };
    let once = assoc_set(base, k, v1);
    lemma_assoc_set_reads_back(once, k, v2);
    assert forall|k2: Seq<char>|
        k2 != k implies #[trigger] assoc_lookup(assoc_set(once, k, v2), k2) == assoc_lookup(
        base,
        k2,
    ) by {
        lemma_assoc_set_keeps_unique(base, k, v1);
        lemma_assoc_set_frames_others(once, k, v2, k2);
        lemma_assoc_set_frames_others(base, k, v1, k2);
    }
}

/// An immutable query under construction. Every mutator returns a fresh
/// builder value and leaves the receiver untouched, so builders derived from
/// one handle can be branched and reused freely.
pub struct QueryBuilder<'a> {
    tushare: &'a Tushare,
    api_name: String,
    params: Option<Dict>,
    fields: Option<String>,
}

/// The request envelope a builder finalizes into: exactly what is serialized
/// into the JSON request body.
pub struct RequestEnvelope {
    pub api_name: String,
    pub token: String,
    pub params: Option<Dict>,
    pub fields: Option<String>,
}

impl RequestEnvelope {
    /// The mathematical content of the envelope.
    pub open spec fn model(&self) -> RequestModel {
        RequestModel {
            api_name: self.api_name@,
            token: self.token@,
            params: match self.params {
                Some(d) => Some(d@),
                None => None,
            },
            fields: match self.fields {
                Some(f) => Some(f@),
                None => None,
            },
        }
    }
}

impl<'a> QueryBuilder<'a> {
    /// The mathematical content of the builder.
    pub closed spec fn model(&self) -> RequestModel {
        RequestModel {
            api_name: self.api_name@,
            token: self.tushare.token@,
            params: match self.params {
                Some(d) => Some(d@),
                None => None,
            },
            fields: match self.fields {
                Some(f) => Some(f@),
                None => None,
            },
        }
    }

    /// The endpoint URL of the handle this builder was spawned from.
    pub closed spec fn endpoint_spec(&self) -> Seq<char> {
        self.tushare.api_endpoint@
    }

    pub(crate) fn new(tushare: &'a Tushare, api_name: String) -> (r: QueryBuilder<'a>)
        ensures
            r.model() == fresh_model(tushare.token@, api_name@),
            r.endpoint_spec() == tushare.api_endpoint@,
            params_wf(r.model()),
    {
        QueryBuilder { tushare, api_name, params: None, fields: None }
    }

    /// The endpoint URL the finished request is to be posted to.
    pub fn endpoint(&self) -> (r: &String)
        ensures
            r@ == self.endpoint_spec(),
    {
        &self.tushare.api_endpoint
    }

    /// Returns a new builder whose parameter set is replaced wholesale by the
    /// given one; earlier parameters do not survive. The receiver is
    /// unchanged.
    pub fn params(&self, params: Dict) -> (r: QueryBuilder<'a>)
        ensures
            r.model() == with_params(self.model(), params@),
            r.endpoint_spec() == self.endpoint_spec(),
            keys_unique(params@) ==> params_wf(r.model()),
    {
        QueryBuilder {
            tushare: self.tushare,
            api_name: self.api_name.clone(),
            params: Some(params),
            fields: match &self.fields {
                Some(f) => Some(f.clone()),
                None => None,
            },
        }
    }

    /// Returns a new builder whose parameter set is the receiver's with
    /// `(k, v)` merged in, the new value winning on a key collision; with no
    /// prior parameters it starts a single-entry set. The receiver is
    /// unchanged.
    pub fn addparam(&self, k: String, v: String) -> (r: QueryBuilder<'a>)
        requires
            params_wf(self.model()),
        ensures
            r.model() == with_added_param(self.model(), k@, v@),
            r.endpoint_spec() == self.endpoint_spec(),
            params_wf(r.model()),
    {
        let dict = match &self.params {
            Some(d) => d.insert(k, v),
            None => {
                let d0 = Dict::new();
                d0.insert(k, v)
            },
        };
        QueryBuilder {
            tushare: self.tushare,
            api_name: self.api_name.clone(),
            params: Some(dict),
            fields: match &self.fields {
                Some(f) => Some(f.clone()),
                None => None,
            },
        }
    }

    /// Returns a new builder whose field list is replaced by the given
    /// comma-separated one. The receiver is unchanged; the list is not
    /// validated against any server schema.
    pub fn fields(&self, fields: String) -> (r: QueryBuilder<'a>)
        ensures
            r.model() == with_fields(self.model(), fields@),
            r.endpoint_spec() == self.endpoint_spec(),
            params_wf(self.model()) ==> params_wf(r.model()),
    {
        QueryBuilder {
            tushare: self.tushare,
            api_name: self.api_name.clone(),
            params: match &self.params {
                Some(d) => Some(d.duplicate()),
                None => None,
            },
            fields: Some(fields),
        }
    }

    /// Finalizes the builder into the request envelope that is serialized
    /// and posted: the accumulated API name, the handle's token, and the
    /// parameter set and field list, either of which may be absent.
    pub fn build(&self) -> (r: RequestEnvelope)
        ensures
            r.model() == self.model(),
    {
        RequestEnvelope {
            api_name: self.api_name.clone(),
            token: self.tushare.token.clone(),
            params: match &self.params {
                Some(d) => Some(d.duplicate()),
                None => None,
            },
            fields: match &self.fields {
                Some(f) => Some(f.clone()),
                None => None,
            },
        }
    }
}

} // verus!
