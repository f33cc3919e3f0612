//! Compiled responses and the weighted, shuffled, round-robin rotation that
//! picks one per matched request.

use vstd::prelude::*;
use vstd::string::*;

use crate::config::{StaticResponseBodyConfig, StaticResponseConfig};
use crate::entropy::shuffle_slots;
use crate::errors::HttpPluginError;
use crate::matcher::{is_valid_header_name, valid_header_name};
use crate::strutil::{pairs_view, seq_eq_ci, str_eq_ci};
use crate::templates::{register_template, template_map, template_ok};

verus! {

/// A character `http`'s header-value byte rule accepts for configured
/// headers: not a control character, not delete.
pub open spec fn valid_value_char(c: char) -> bool {
    32 <= c as u32 && c as u32 != 127
}

/// A character the visible-ASCII header-value rule accepts; the diagnostic
/// headers fall back to a fixed message outside it.
pub open spec fn visible_value_char(c: char) -> bool {
    (32 <= c as u32 && (c as u32) < 127) || c as u32 == 9
}

/// A header value every configured response header must satisfy.
pub open spec fn valid_header_value(s: Seq<char>) -> bool {
    forall|i: int| 0 <= i < s.len() ==> valid_value_char(#[trigger] s[i])
}

/// A header value of visible ASCII (or tab).
pub open spec fn visible_header_value(s: Seq<char>) -> bool {
    forall|i: int| 0 <= i < s.len() ==> visible_value_char(#[trigger] s[i])
}

/// Checks `s` against the configured-header value rule.
pub fn is_valid_header_value(s: &str) -> (r: bool)
    ensures
        r == valid_header_value(s@),
{
    let len = s.unicode_len();
    let mut i: usize = 0;
    while i < len
        invariant
            len == s@.len(),
            i <= len,
            forall|j: int| 0 <= j < i ==> valid_value_char(#[trigger] s@[j]),
        decreases len - i,
    {
        let u = s.get_char(i) as u32;
        if u < 32 || u == 127 {
            return false;
        }
        i = i + 1;
    }
    true
}

/// Checks `s` against the visible-ASCII value rule.
pub fn is_visible_header_value(s: &str) -> (r: bool)
    ensures
        r == visible_header_value(s@),
{
    let len = s.unicode_len();
    let mut i: usize = 0;
    while i < len
        invariant
            len == s@.len(),
            i <= len,
            forall|j: int| 0 <= j < i ==> visible_value_char(#[trigger] s@[j]),
        decreases len - i,
    {
        let u = s.get_char(i) as u32;
        if !((32 <= u && u < 127) || u == 9) {
            return false;
        }
        i = i + 1;
    }
    true
}

/// `hs` without the entries whose name equals `name` up to ASCII case,
/// in order.
pub open spec fn strip_name(hs: Seq<(Seq<char>, Seq<char>)>, name: Seq<char>) -> Seq<
    (Seq<char>, Seq<char>),
>
    decreases hs.len(),
{
    if hs.len() == 0 {
        Seq::empty()
    } else {
        strip_name(hs.drop_last(), name) + (if seq_eq_ci(hs.last().0, name) {
            Seq::empty()
        } else {
            seq![hs.last()]
        })
    }
}

/// Header insertion with replacement: entries under a case-insensitively
/// equal name give way, and the new entry goes to the end.
pub open spec fn header_insert(
    hs: Seq<(Seq<char>, Seq<char>)>,
    name: Seq<char>,
    value: Seq<char>,
) -> Seq<(Seq<char>, Seq<char>)> {
    strip_name(hs, name).push((name, value))
}

/// All of `hs` inserted into `init` in order, each with replacement.
pub open spec fn inserted_all(
    init: Seq<(Seq<char>, Seq<char>)>,
    hs: Seq<(String, String)>,
) -> Seq<(Seq<char>, Seq<char>)>
    decreases hs.len(),
{
    if hs.len() == 0 {
        init
    } else {
        header_insert(inserted_all(init, hs.drop_last()), hs.last().0@, hs.last().1@)
    }
}

/// Inserts one header into a header list with replacement semantics.
pub fn insert_header(headers: &mut Vec<(String, String)>, name: String, value: String)
    ensures
        pairs_view(final(headers)@) == header_insert(pairs_view(old(headers)@), name@, value@),
{
    let ghost dview = pairs_view(headers@);
    let mut out: Vec<(String, String)> = Vec::new();
    let mut i: usize = 0;
    while i < headers.len()
        invariant
            i <= headers@.len(),
            dview == pairs_view(headers@),
            pairs_view(out@) == strip_name(dview.take(i as int), name@),
        decreases headers@.len() - i,
    {
        let ghost prev = dview.take(i as int);
        let ghost next = dview.take(i as int + 1);
        let pair = &headers[i];
        if !str_eq_ci(pair.0.as_str(), name.as_str()) {
            out.push((pair.0.clone(), pair.1.clone()));
        }
        proof {
            assert(next.drop_last() =~= prev);
            assert(next.last() == (headers@[i as int].0@, headers@[i as int].1@));
            assert(pairs_view(out@) =~= strip_name(next, name@));
        }
        i = i + 1;
    }
    proof {
        assert(dview.take(headers@.len() as int) =~= dview);
    }
    out.push((name, value));
    proof {
        assert(pairs_view(out@) =~= header_insert(dview, name@, value@));
    }
    *headers = out;
}

/// The diagnostic header name `x-dev-null-<name>`.
pub open spec fn dev_header_name(name: Seq<char>) -> Seq<char> {
    "x-dev-null-"@ + name
}

/// The value a diagnostic header carries: the given value where it is a
/// visible-ASCII header value, else the fallback `<name> invalid header`.
pub open spec fn dev_header_value(value: Seq<char>, name: Seq<char>) -> Seq<char> {
    if visible_header_value(value) {
        value
    } else {
        name + " invalid header"@
    }
}

/// Adds the diagnostic header `x-dev-null-<name>`, replacing any prior
/// entry; a value that fails header-value validation is replaced by the
/// visible fallback `<name> invalid header`.
pub fn add_header(headers: &mut Vec<(String, String)>, name: &str, value: &str)
    ensures
        pairs_view(final(headers)@) == header_insert(
            pairs_view(old(headers)@),
            dev_header_name(name@),
            dev_header_value(value@, name@),
        ),
{
    let mut full_name = String::from_str("x-dev-null-");
    full_name.append(name);
    let final_value: String = if is_visible_header_value(value) {
        String::from_str(value)
    } else {
        let mut v = String::from_str(name);
        v.append(" invalid header");
        v
    };
    insert_header(headers, full_name, final_value);
}

/// A compiled response: everything needed to serve it, with the body held
/// by the template registry under `handlebar_template_id`.
pub struct StaticResponse {
    /// HTTP status code, in 100..=599.
    pub status: u16,
    /// The final response headers, diagnostics among them.
    pub headers: Vec<(String, String)>,
    /// The registry id of the body template.
    pub handlebar_template_id: String,
    /// Milliseconds to wait before the response is written.
    pub delay: u64,
}

/// The mathematical shape of a compiled response.
pub struct ResponseModel {
    /// HTTP status code.
    pub status: u16,
    /// Header (name, value) views in order.
    pub headers: Seq<(Seq<char>, Seq<char>)>,
    /// The body template id.
    pub template_id: Seq<char>,
    /// Delay in milliseconds.
    pub delay: u64,
}

impl StaticResponse {
    /// The model of this compiled response.
    pub open spec fn model(self) -> ResponseModel {
        ResponseModel {
            status: self.status,
            headers: pairs_view(self.headers@),
            template_id: self.handlebar_template_id@,
            delay: self.delay,
        }
    }
}

/// The body text a response config registers as its template: its payload,
/// or the empty string without one.
pub open spec fn body_text_spec(body: Option<StaticResponseBodyConfig<String>>) -> Seq<char> {
    match body {
        Some(StaticResponseBodyConfig::Json(d)) => d@,
        Some(StaticResponseBodyConfig::Raw(d)) => d@,
        _ => Seq::empty(),
    }
}

/// The headers a response starts from: `content-type: application/json`
/// for a JSON body, nothing otherwise.
pub open spec fn content_type_base(body: Option<StaticResponseBodyConfig<String>>) -> Seq<
    (Seq<char>, Seq<char>),
> {
    match body {
        Some(StaticResponseBodyConfig::Json(_)) => seq![("content-type"@, "application/json"@)],
        _ => Seq::empty(),
    }
}

/// When one response config compiles: status in range, header names and
/// values valid, and the body accepted as a template.
pub open spec fn resp_compile_ok(cfg: StaticResponseConfig<String>) -> bool {
    &&& 100 <= cfg.status <= 599
    &&& forall|i: int|
        0 <= i < cfg.headers@.len() ==> valid_header_name((#[trigger] cfg.headers@[i]).0@)
            && valid_header_value(cfg.headers@[i].1@)
    &&& template_ok(body_text_spec(cfg.body))
}

/// The model of the response compiled from `cfg` under payload `pid`:
/// base headers, then the configured headers, then the two diagnostic
/// headers, each inserted with replacement.
pub open spec fn compiled_response_model(
    pid: Seq<char>,
    cfg: StaticResponseConfig<String>,
) -> ResponseModel {
    ResponseModel {
        status: cfg.status,
        headers: header_insert(
            header_insert(
                inserted_all(content_type_base(cfg.body), cfg.headers@),
                dev_header_name("response-id"@),
                dev_header_value(cfg.id@, "response-id"@),
            ),
            dev_header_name("payload-id"@),
            dev_header_value(pid, "payload-id"@),
        ),
        template_id: cfg.id@,
        delay: cfg.delay,
    }
}

impl StaticResponse {
    /// Compiles one response config: validates the status and headers,
    /// registers the body template under the response id, and attaches the
    /// diagnostic headers.
    pub fn try_from(
        payload_id: &str,
        value: &StaticResponseConfig<String>,
        hb: &mut handlebars::Handlebars<'static>,
    ) -> (r: Result<StaticResponse, HttpPluginError>)
        ensures
            r is Ok <==> resp_compile_ok(*value),
            r matches Ok(resp) ==> resp.model() == compiled_response_model(payload_id@, *value),
            r is Ok ==> template_map(*final(hb)) == template_map(*old(hb)).insert(
                value.id@,
                body_text_spec(value.body),
            ),
            r is Err ==> template_map(*final(hb)) == template_map(*old(hb)),
    {
        if value.status < 100 || value.status > 599 {
            return Err(HttpPluginError::InvalidStatusCode(value.status));
        }
        let mut headers: Vec<(String, String)> = Vec::new();
        match &value.body {
            Some(StaticResponseBodyConfig::Json(_)) => {
                headers.push(
                    (String::from_str("content-type"), String::from_str("application/json")),
                );
                proof {
                    assert(pairs_view(headers@) =~= content_type_base(value.body));
                }
            },
            _ => {
                proof {
                    assert(pairs_view(headers@) =~= content_type_base(value.body));
                }
            },
        }
        let mut i: usize = 0;
        while i < value.headers.len()
            invariant
                i <= value.headers@.len(),
                forall|j: int|
                    0 <= j < i ==> valid_header_name((#[trigger] value.headers@[j]).0@)
                        && valid_header_value(value.headers@[j].1@),
                pairs_view(headers@) == inserted_all(
                    content_type_base(value.body),
                    value.headers@.take(i as int),
                ),
            decreases value.headers@.len() - i,
        {
            let ghost prev = value.headers@.take(i as int);
            let ghost next = value.headers@.take(i as int + 1);
            let pair = &value.headers[i];
            if !is_valid_header_name(pair.0.as_str()) {
                return Err(HttpPluginError::InvalidHeaderName(pair.0.clone()));
            }
            if !is_valid_header_value(pair.1.as_str()) {
                return Err(HttpPluginError::InvalidHeaderValue(pair.1.clone()));
            }
            insert_header(&mut headers, pair.0.clone(), pair.1.clone());
            proof {
                assert(next.drop_last() =~= prev);
                assert(next.last() == value.headers@[i as int]);
            }
            i = i + 1;
        }
        proof {
            assert(value.headers@.take(value.headers@.len() as int) =~= value.headers@);
        }
        let body_text: String = match &value.body {
            Some(StaticResponseBodyConfig::Json(d)) => d.clone(),
            Some(StaticResponseBodyConfig::Raw(d)) => d.clone(),
            _ => String::new(),
        };
        match register_template(hb, value.id.as_str(), body_text.as_str()) {
            Ok(_) => {},
            Err(e) => {
                return Err(HttpPluginError::TemplateError(e));
            },
        }
        add_header(&mut headers, "response-id", value.id.as_str());
        add_header(&mut headers, "payload-id", payload_id);
        Ok(
            StaticResponse {
                status: value.status,
                headers,
                handlebar_template_id: value.id.clone(),
                delay: value.delay,
            },
        )
    }
}

/// The total rotation weight of a config sequence.
pub open spec fn total_weight(cfgs: Seq<StaticResponseConfig<String>>) -> int
    decreases cfgs.len(),
{
    if cfgs.len() == 0 {
        0
    } else {
        total_weight(cfgs.drop_last()) + cfgs.last().weight
    }
}

/// The total weight of the configs whose weight lies strictly below `w`.
pub open spec fn weight_sum_below(cfgs: Seq<StaticResponseConfig<String>>, w: int) -> int
    decreases cfgs.len(),
{
    if cfgs.len() == 0 {
        0
    } else {
        weight_sum_below(cfgs.drop_last(), w) + (if (cfgs.last().weight as int) < w {
            cfgs.last().weight as int
        } else {
            0
        })
    }
}

/// The total weight of the first `i` configs whose weight is exactly `w`.
pub open spec fn weight_sum_at(cfgs: Seq<StaticResponseConfig<String>>, w: int, i: int) -> int
    decreases i,
{
    if i <= 0 {
        0
    } else {
        weight_sum_at(cfgs, w, i - 1) + (if 0 <= i - 1 < cfgs.len() && (cfgs[i - 1].weight as int)
            == w {
            cfgs[i - 1].weight as int
        } else {
            0
        })
    }
}

proof fn lemma_weight_sum_at_drop_last(cfgs: Seq<StaticResponseConfig<String>>, w: int, i: int)
    requires
        0 <= i <= cfgs.len() - 1,
    ensures
        weight_sum_at(cfgs, w, i) == weight_sum_at(cfgs.drop_last(), w, i),
    decreases i,
{
    if i > 0 {
        lemma_weight_sum_at_drop_last(cfgs, w, i - 1);
        assert(cfgs.drop_last()[i - 1] == cfgs[i - 1]);
    }
}

proof fn lemma_weight_sum_step(cfgs: Seq<StaticResponseConfig<String>>, w: int)
    ensures
        weight_sum_below(cfgs, w + 1) == weight_sum_below(cfgs, w) + weight_sum_at(
            cfgs,
            w,
            cfgs.len() as int,
        ),
    decreases cfgs.len(),
{
    if cfgs.len() > 0 {
        lemma_weight_sum_step(cfgs.drop_last(), w);
        lemma_weight_sum_at_drop_last(cfgs, w, cfgs.len() - 1);
    }
}

proof fn lemma_weight_sum_below_zero(cfgs: Seq<StaticResponseConfig<String>>)
    ensures
        weight_sum_below(cfgs, 0) == 0,
    decreases cfgs.len(),
{
    if cfgs.len() > 0 {
        lemma_weight_sum_below_zero(cfgs.drop_last());
    }
}

proof fn lemma_weight_sum_total(cfgs: Seq<StaticResponseConfig<String>>)
    ensures
        weight_sum_below(cfgs, 65536) == total_weight(cfgs),
    decreases cfgs.len(),
{
    if cfgs.len() > 0 {
        lemma_weight_sum_total(cfgs.drop_last());
    }
}

/// The weighted, shuffled rotation of a payload's responses. `slots` holds
/// one index into `responses` per unit of weight; `pointer` is the
/// round-robin cursor.
pub struct StaticResponseContainer {
    /// The round-robin cursor, always below the slot count.
    pub pointer: usize,
    /// The compiled responses, one per config.
    pub responses: Vec<StaticResponse>,
    /// The shuffled slot vector of indices into `responses`.
    pub slots: Vec<usize>,
}

impl StaticResponseContainer {
    /// Well-formedness: at least one slot, the cursor in range, and every
    /// slot naming a response.
    pub open spec fn wf(self) -> bool {
        &&& self.slots@.len() > 0
        &&& (self.pointer as int) < self.slots@.len()
        &&& forall|k: int|
            0 <= k < self.slots@.len() ==> (#[trigger] self.slots@[k] as int)
                < self.responses@.len()
    }

    /// Builds the rotation for one payload: compiles each response config,
    /// then lays the slot vector out in ascending weight order (a stable
    /// layout), each response's index repeated `weight` times, and shuffles
    /// it uniformly. The shuffle erases the layout, so the contract pins the
    /// slot multiset: each response occupies exactly `weight` slots. Fails
    /// exactly when a response fails to compile or the total weight is zero.
    pub fn try_from(
        payload_id: &str,
        configs: &Vec<StaticResponseConfig<String>>,
        hb: &mut handlebars::Handlebars<'static>,
    ) -> (r: Result<StaticResponseContainer, HttpPluginError>)
        ensures
            r is Ok <==> (forall|j: int|
                0 <= j < configs@.len() ==> resp_compile_ok(#[trigger] configs@[j]))
                && total_weight(configs@) > 0,
            r matches Ok(c) ==> {
                &&& c.wf()
                &&& c.pointer == 0
                &&& c.responses@.len() == configs@.len()
                &&& forall|j: int|
                    0 <= j < configs@.len() ==> (#[trigger] c.responses@[j]).model()
                        == compiled_response_model(payload_id@, configs@[j])
                &&& c.slots@.len() == total_weight(configs@)
                &&& forall|idx: int|
                    0 <= idx < configs@.len() ==> c.slots@.to_multiset().count(idx as usize)
                        == configs@[idx].weight
            },
    {
        broadcast use vstd::seq_lib::group_to_multiset_ensures;

        let mut responses: Vec<StaticResponse> = Vec::new();
        let mut i: usize = 0;
        while i < configs.len()
            invariant
                i <= configs@.len(),
                responses@.len() == i,
                forall|j: int| 0 <= j < i ==> resp_compile_ok(#[trigger] configs@[j]),
                forall|j: int|
                    0 <= j < i ==> (#[trigger] responses@[j]).model() == compiled_response_model(
                        payload_id@,
                        configs@[j],
                    ),
            decreases configs@.len() - i,
        {
            let resp = match StaticResponse::try_from(payload_id, &configs[i], hb) {
                Ok(r) => r,
                Err(e) => {
                    return Err(e);
                },
            };
            responses.push(resp);
            i = i + 1;
        }

        let n = responses.len();
        let mut slots: Vec<usize> = Vec::new();
        proof {
            lemma_weight_sum_below_zero(configs@);
            assert forall|id: int| 0 <= id < n implies #[trigger] slots@.to_multiset().count(
                id as usize,
            ) == 0 by {
                if slots@.to_multiset().count(id as usize) > 0 {
                    assert(slots@.contains(id as usize));
                }
            }
        }
        let mut w: u32 = 0;
        while w < 65536
            invariant
                n == configs@.len(),
                w <= 65536,
                slots@.len() == weight_sum_below(configs@, w as int),
                forall|id: int|
                    0 <= id < n ==> #[trigger] slots@.to_multiset().count(id as usize) == (
                    if (configs@[id].weight as int) < w {
                        configs@[id].weight as int
                    } else {
                        0
                    }),
                forall|k: int| 0 <= k < slots@.len() ==> (#[trigger] slots@[k] as int) < n,
            decreases 65536 - w,
        {
            broadcast use vstd::seq_lib::group_to_multiset_ensures;

            let mut idx: usize = 0;
            while idx < n
                invariant
                    n == configs@.len(),
                    idx <= n,
                    w < 65536,
                    slots@.len() == weight_sum_below(configs@, w as int) + weight_sum_at(
                        configs@,
                        w as int,
                        idx as int,
                    ),
                    forall|id: int|
                        0 <= id < n ==> #[trigger] slots@.to_multiset().count(id as usize) == (
                        if (configs@[id].weight as int) < w || ((configs@[id].weight as int) == w
                            && id < idx) {
                            configs@[id].weight as int
                        } else {
                            0
                        }),
                    forall|k: int| 0 <= k < slots@.len() ==> (#[trigger] slots@[k] as int) < n,
                decreases n - idx,
            {
                broadcast use vstd::seq_lib::group_to_multiset_ensures;

                let cw = configs[idx].weight;
                if (cw as u32) == w {
                    let ghost base = slots@;
                    proof {
                        let ghost id: int = idx as int;
                        assert(base.to_multiset().count(id as usize) == 0);
                        assert(id as usize == idx);
                    }
                    let mut t: u16 = 0;
                    while t < cw
                        invariant
                            t <= cw,
                            idx < n == configs@.len(),
                            cw == configs@[idx as int].weight,
                            base.to_multiset().count(idx) == 0,
                            slots@.len() == base.len() + t,
                            slots@.to_multiset().count(idx) == t,
                            forall|v: usize|
                                v != idx ==> slots@.to_multiset().count(v) == base.to_multiset().count(
                                    v,
                                ),
                            forall|k: int| 0 <= k < base.len() ==> slots@[k] == base[k],
                            forall|k: int|
                                0 <= k < slots@.len() ==> (#[trigger] slots@[k] as int) < n,
                        decreases cw - t,
                    {
                        broadcast use vstd::seq_lib::group_to_multiset_ensures;

                        let ghost pre = slots@;
                        slots.push(idx);
                        proof {
                            assert(slots@ == pre.push(idx));
                            assert(pre.push(idx).to_multiset() =~= pre.to_multiset().insert(idx));
                        }
                        t = t + 1;
                    }
                }
                proof {
                    assert(weight_sum_at(configs@, w as int, idx as int + 1) == weight_sum_at(
                        configs@,
                        w as int,
                        idx as int,
                    ) + (if (configs@[idx as int].weight as int) == w {
                        configs@[idx as int].weight as int
                    } else {
                        0
                    }));
                }
                idx = idx + 1;
            }
            proof {
                lemma_weight_sum_step(configs@, w as int);
            }
            w = w + 1;
        }
        proof {
            lemma_weight_sum_total(configs@);
            assert forall|id: int| 0 <= id < configs@.len() implies slots@.to_multiset().count(
                id as usize,
            ) == configs@[id].weight by {
                assert((configs@[id].weight as int) < 65536);
            }
        }

        if slots.len() == 0 {
            return Err(HttpPluginError::NoResponsesProvided);
        }
        let ghost pre_shuffle = slots@;
        shuffle_slots(&mut slots);
        proof {
            assert forall|k: int| 0 <= k < slots@.len() implies (#[trigger] slots@[k] as int)
                < responses@.len() by {
                let v = slots@[k];
                assert(slots@.contains(v));
                assert(slots@.to_multiset().count(v) > 0);
                assert(pre_shuffle.to_multiset().count(v) > 0);
                assert(pre_shuffle.contains(v));
                let k1 = choose|k1: int| 0 <= k1 < pre_shuffle.len() && pre_shuffle[k1] == v;
                assert((pre_shuffle[k1] as int) < responses@.len());
            }
        }
        Ok(StaticResponseContainer { pointer: 0, responses, slots })
    }

    /// Advances the round-robin cursor and returns the slot it pointed at:
    /// the index of the selected response.
    pub fn get_response(&mut self) -> (idx: usize)
        requires
            old(self).wf(),
        ensures
            final(self).wf(),
            final(self).responses == old(self).responses,
            final(self).slots == old(self).slots,
            final(self).pointer as int == (old(self).pointer + 1) % (old(self).slots@.len() as int),
            idx == old(self).slots@[old(self).pointer as int],
            (idx as int) < final(self).responses@.len(),
    {
        let n = self.slots.len();
        let value = self.pointer;
        self.pointer = (value + 1) % n;
        self.slots[value]
    }
}

/// The cursor after `k` selections from start `p0` in a rotation of `n`
/// slots.
pub open spec fn cursor_at(p0: int, k: int, n: int) -> int {
    (p0 + k) % n
}

/// Slot `s` is reached within one full cycle from `p0`.
pub open spec fn slot_covered(p0: int, n: int, s: int) -> bool {
    exists|k: int| 0 <= k < n && #[trigger] cursor_at(p0, k, n) == s
}

proof fn lemma_mod_small(x: int, n: int)
    requires
        0 <= x < n,
    ensures
        x % n == x,
{
    assert(x % n == x) by (nonlinear_arith)
        requires
            0 <= x < n,
    ;
}

proof fn lemma_mod_shift(x: int, n: int)
    requires
        n <= x < 2 * n,
    ensures
        x % n == x - n,
{
    assert(x % n == x - n) by (nonlinear_arith)
        requires
            n <= x < 2 * n,
    ;
}

/// Over one full cycle of `n` selections the rotation's cursor takes `n`
/// distinct values and reaches every slot: each slot is visited exactly
/// once per cycle.
pub proof fn lemma_full_cycle_visits_each_slot_once(p0: int, n: int)
    requires
        0 <= p0 < n,
    ensures
        forall|k1: int, k2: int|
            0 <= k1 < k2 < n ==> cursor_at(p0, k1, n) != cursor_at(p0, k2, n),
        forall|s: int| 0 <= s < n ==> #[trigger] slot_covered(p0, n, s),
{
    assert forall|k1: int, k2: int| 0 <= k1 < k2 < n implies cursor_at(p0, k1, n) != cursor_at(
        p0,
        k2,
        n,
    ) by {
        if p0 + k1 < n {
            lemma_mod_small(p0 + k1, n);
        } else {
            lemma_mod_shift(p0 + k1, n);
        }
        if p0 + k2 < n {
            lemma_mod_small(p0 + k2, n);
        } else {
            lemma_mod_shift(p0 + k2, n);
        }
    }
    assert forall|s: int| 0 <= s < n implies #[trigger] slot_covered(p0, n, s) by {
        if s >= p0 {
            let k = s - p0;
            lemma_mod_small(p0 + k, n);
            assert(cursor_at(p0, k, n) == s);
        } else {
            let k = s + n - p0;
            lemma_mod_shift(p0 + k, n);
            assert(cursor_at(p0, k, n) == s);
        }
    }
}

} // verus!
