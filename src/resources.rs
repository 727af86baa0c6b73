use vstd::prelude::*;

use crate::json::Json;
use crate::pagination::{next_cursor, page_keys, page_start, KeyedList, PAGE_SIZE};
use crate::template::{fill_from, lemma_fill_split, piece, readable, value_readable, find_param, fill, lemma_fill_prefix_values, split_template, substitutes, template_parts, values_of, find_substring};
use crate::text::{concat, occurs_at, str_eq};
use crate::types::resource::{lists_resource, lists_template, Resource, ResourceTemplate};

verus! {

/// Whether the pair `(u, s)` occurs in `ps`.
pub open spec fn pair_in(ps: Seq<(String, String)>, u: Seq<char>, s: Seq<char>) -> bool {
    exists|i: int| 0 <= i < ps.len() && #[trigger] ps[i].0@ == u && ps[i].1@ == s
}

pub(crate) proof fn lemma_pair_in_push(ps: Seq<(String, String)>, e: (String, String), u: Seq<char>, s: Seq<char>)
    ensures
        pair_in(ps.push(e), u, s) == (pair_in(ps, u, s) || (e.0@ == u && e.1@ == s)),
{
    let qs = ps.push(e);
    if pair_in(qs, u, s) {
        let j = choose|j: int| 0 <= j < qs.len() && #[trigger] qs[j].0@ == u && qs[j].1@ == s;
        if j < ps.len() {
            assert(ps[j] == qs[j]);
        }
    }
    if pair_in(ps, u, s) {
        let j = choose|j: int| 0 <= j < ps.len() && #[trigger] ps[j].0@ == u && ps[j].1@ == s;
        assert(qs[j] == ps[j]);
    }
    if e.0@ == u && e.1@ == s {
        assert(qs[ps.len() as int] == e);
    }
}

/// Registered resources and templates, the subscriptions to resources, and the templates
/// that have a completion provider.
pub struct ResourceManager {
    pub resources: KeyedList<Resource>,
    pub templates: KeyedList<ResourceTemplate>,
    /// Pairs of resource URI and subscriber.
    pub subscriptions: Vec<(String, String)>,
    pub completion_providers: KeyedList<()>,
}

impl ResourceManager {
    /// Resources are keyed by URI and templates by URI template, in key order.
    pub open spec fn wf(&self) -> bool {
        &&& self.resources.wf()
        &&& self.templates.wf()
        &&& self.completion_providers.wf()
        &&& (forall|i: int|
            0 <= i < self.resources.entries@.len() ==> #[trigger] self.resources.entries@[i].0@
                == self.resources.entries@[i].1.uri@)
        &&& (forall|i: int|
            0 <= i < self.templates.entries@.len() ==> #[trigger] self.templates.entries@[i].0@
                == self.templates.entries@[i].1.uri_template@)
    }

    /// Whether `subscriber` is subscribed to `uri`.
    pub open spec fn subscribed(&self, uri: Seq<char>, subscriber: Seq<char>) -> bool {
        pair_in(self.subscriptions@, uri, subscriber)
    }

    /// Whether anyone is subscribed to `uri`.
    pub open spec fn watched(&self, uri: Seq<char>) -> bool {
        exists|i: int| 0 <= i < self.subscriptions@.len() && #[trigger] self.subscriptions@[i].0@ == uri
    }

    pub fn new() -> (r: Self)
        ensures
            r.wf(),
            r.resources.keys().len() == 0,
            r.templates.keys().len() == 0,
            r.subscriptions@.len() == 0,
            forall|k: Seq<char>| !r.completion_providers.has(k),
    {
        ResourceManager {
            resources: KeyedList::new(),
            templates: KeyedList::new(),
            subscriptions: Vec::new(),
            completion_providers: KeyedList::new(),
        }
    }

    /// Registers `resource` under its URI, replacing an earlier one. Returns whether one was
    /// replaced.
    pub fn register_resource(&mut self, resource: Resource) -> (replaced: bool)
        requires
            old(self).wf(),
        ensures
            final(self).wf(),
            replaced == old(self).resources.has(resource.uri@),
            final(self).resources.has(resource.uri@),
            final(self).resources.lookup(resource.uri@) == resource,
            forall|k: Seq<char>|
                k != resource.uri@ ==> final(self).resources.has(k) == old(self).resources.has(k),
            forall|k: Seq<char>|
                k != resource.uri@ && #[trigger] old(self).resources.has(k) ==> final(self).resources.lookup(k)
                    == old(self).resources.lookup(k),
            final(self).subscriptions == old(self).subscriptions,
            final(self).templates == old(self).templates,
            final(self).completion_providers == old(self).completion_providers,
    {
        let key = resource.uri.clone();
        let ghost r = resource;
        let replaced = self.resources.insert(key, resource);
        proof {
            let rs = self.resources;
            assert forall|i: int| 0 <= i < rs.entries@.len() implies #[trigger] rs.entries@[i].0@
                == rs.entries@[i].1.uri@ by {
                rs.lemma_index_of(i);
                let k = rs.entries@[i].0@;
                if k != r.uri@ {
                    let o = old(self).resources;
                    let j = o.index_of(k);
                    o.lemma_index_of(j);
                    assert(o.entries@[j].0@ == o.entries@[j].1.uri@);
                }
            }
        }
        replaced
    }

    /// Registers `template` under its URI template, replacing an earlier one.
    pub fn register_template(&mut self, template: ResourceTemplate) -> (replaced: bool)
        requires
            old(self).wf(),
        ensures
            final(self).wf(),
            replaced == old(self).templates.has(template.uri_template@),
            final(self).templates.has(template.uri_template@),
            final(self).templates.lookup(template.uri_template@) == template,
            forall|k: Seq<char>|
                k != template.uri_template@ ==> final(self).templates.has(k) == old(self).templates.has(k),
            forall|k: Seq<char>|
                k != template.uri_template@ && #[trigger] old(self).templates.has(k) ==> final(self).templates.lookup(k)
                    == old(self).templates.lookup(k),
            final(self).resources == old(self).resources,
            final(self).subscriptions == old(self).subscriptions,
            final(self).completion_providers == old(self).completion_providers,
    {
        let key = template.uri_template.clone();
        let ghost t = template;
        let replaced = self.templates.insert(key, template);
        proof {
            let ts = self.templates;
            assert forall|i: int| 0 <= i < ts.entries@.len() implies #[trigger] ts.entries@[i].0@
                == ts.entries@[i].1.uri_template@ by {
                ts.lemma_index_of(i);
                let k = ts.entries@[i].0@;
                if k != t.uri_template@ {
                    let o = old(self).templates;
                    let j = o.index_of(k);
                    o.lemma_index_of(j);
                    assert(o.entries@[j].0@ == o.entries@[j].1.uri_template@);
                }
            }
        }
        replaced
    }

    /// Records that the template `template_uri` has a completion provider.
    pub fn register_completion_provider(&mut self, template_uri: &str)
        requires
            old(self).wf(),
        ensures
            final(self).wf(),
            final(self).completion_providers.has(template_uri@),
            forall|k: Seq<char>|
                k != template_uri@ ==> final(self).completion_providers.has(k) == old(
                    self,
                ).completion_providers.has(k),
            final(self).resources == old(self).resources,
            final(self).templates == old(self).templates,
            final(self).subscriptions == old(self).subscriptions,
    {
        self.completion_providers.insert(template_uri.to_owned(), ());
    }

    /// Whether the template `template_uri` has a completion provider.
    pub fn has_completion_provider(&self, template_uri: &str) -> (r: bool)
        requires
            self.wf(),
        ensures
            r == self.completion_providers.has(template_uri@),
    {
        self.completion_providers.find(template_uri).is_some()
    }

    /// Whether a resource with `uri` is registered.
    pub fn has_resource(&self, uri: &str) -> (r: bool)
        requires
            self.wf(),
        ensures
            r == self.resources.has(uri@),
    {
        self.resources.find(uri).is_some()
    }

    /// Subscribes `client_id` to `uri`; refused when no such resource is registered.
    pub fn subscribe(&mut self, client_id: &str, uri: &str) -> (r: Result<(), ()>)
        requires
            old(self).wf(),
        ensures
            final(self).wf(),
            r is Ok <==> old(self).resources.has(uri@),
            r is Ok ==> final(self).subscribed(uri@, client_id@),
            forall|u: Seq<char>, s: Seq<char>|
                (u != uri@ || s != client_id@) ==> (final(self).subscribed(u, s) == old(
                    self,
                ).subscribed(u, s)),
            r is Err ==> *final(self) == *old(self),
            final(self).resources == old(self).resources,
            final(self).templates == old(self).templates,
            final(self).completion_providers == old(self).completion_providers,
    {
        if !self.has_resource(uri) {
            return Err(());
        }
        let mut i: usize = 0;
        while i < self.subscriptions.len()
            invariant
                *self == *old(self),
                self.wf(),
                self.resources.has(uri@),
                i <= self.subscriptions@.len(),
                forall|j: int|
                    0 <= j < i ==> !(self.subscriptions@[j].0@ == uri@ && self.subscriptions@[j].1@
                        == client_id@),
            decreases self.subscriptions@.len() - i,
        {
            if str_eq(self.subscriptions[i].0.as_str(), uri) && str_eq(
                self.subscriptions[i].1.as_str(),
                client_id,
            ) {
                return Ok(());
            }
            i = i + 1;
        }
        let ghost before = self.subscriptions@;
        let e = (uri.to_owned(), client_id.to_owned());
        let ghost ge = e;
        self.subscriptions.push(e);
        proof {
            assert forall|u: Seq<char>, s: Seq<char>| true implies #[trigger] pair_in(
                self.subscriptions@,
                u,
                s,
            ) == (pair_in(before, u, s) || (ge.0@ == u && ge.1@ == s)) by {
                lemma_pair_in_push(before, ge, u, s);
            }
        }
        Ok(())
    }

    /// Ends the subscription of `client_id` to `uri`; nothing happens when there is none.
    pub fn unsubscribe(&mut self, client_id: &str, uri: &str)
        requires
            old(self).wf(),
        ensures
            final(self).wf(),
            !final(self).subscribed(uri@, client_id@),
            forall|u: Seq<char>, s: Seq<char>|
                (u != uri@ || s != client_id@) ==> (final(self).subscribed(u, s) == old(
                    self,
                ).subscribed(u, s)),
            final(self).resources == old(self).resources,
            final(self).templates == old(self).templates,
            final(self).completion_providers == old(self).completion_providers,
    {
        let ghost before = self.subscriptions@;
        let mut kept: Vec<(String, String)> = Vec::new();
        let mut i: usize = 0;
        while i < self.subscriptions.len()
            invariant
                i <= before.len(),
                self.subscriptions@ == before,
                !pair_in(kept@, uri@, client_id@),
                forall|u: Seq<char>, s: Seq<char>|
                    (u != uri@ || s != client_id@) ==> (#[trigger] pair_in(kept@, u, s) == pair_in(
                        before.subrange(0, i as int),
                        u,
                        s,
                    )),
            decreases before.len() - i,
        {
            let same = str_eq(self.subscriptions[i].0.as_str(), uri) && str_eq(
                self.subscriptions[i].1.as_str(),
                client_id,
            );
            let ghost kept_before = kept@;
            let ghost e = before[i as int];
            if !same {
                let c = (self.subscriptions[i].0.clone(), self.subscriptions[i].1.clone());
                kept.push(c);
                proof {
                    lemma_pair_in_push(kept_before, c, uri@, client_id@);
                }
            }
            proof {
                assert(before.subrange(0, i + 1) =~= before.subrange(0, i as int).push(e));
                assert forall|u: Seq<char>, s: Seq<char>| (u != uri@ || s != client_id@) implies (
                #[trigger] pair_in(kept@, u, s) == pair_in(before.subrange(0, i + 1), u, s)) by {
                    lemma_pair_in_push(before.subrange(0, i as int), e, u, s);
                    if !same {
                        lemma_pair_in_push(kept_before, kept@.last(), u, s);
                    }
                }
            }
            i = i + 1;
        }
        assert(before.subrange(0, i as int) =~= before);
        self.subscriptions = kept;
    }

    /// Whether anyone is subscribed to `uri`.
    pub fn is_watched(&self, uri: &str) -> (r: bool)
        ensures
            r == self.watched(uri@),
    {
        let mut i: usize = 0;
        while i < self.subscriptions.len()
            invariant
                i <= self.subscriptions@.len(),
                forall|j: int| 0 <= j < i ==> self.subscriptions@[j].0@ != uri@,
            decreases self.subscriptions@.len() - i,
        {
            if str_eq(self.subscriptions[i].0.as_str(), uri) {
                return true;
            }
            i = i + 1;
        }
        false
    }

    /// The page of resources after `cursor`, in URI order, and the cursor of the next page.
    pub fn list_resources(&self, cursor: &str) -> (r: (Vec<Json>, String))
        requires
            self.wf(),
        ensures
            r.0@.len() == page_keys(self.resources.keys(), cursor@, PAGE_SIZE as nat).len(),
            forall|i: int|
                0 <= i < r.0@.len() ==> lists_resource(
                    self.resources.entries@[page_start(self.resources.keys(), cursor@) + i].1,
                    #[trigger] r.0@[i],
                ),
            r.1@ == next_cursor(self.resources.keys(), cursor@, PAGE_SIZE as nat),
    {
        let (start, end, next) = self.resources.page(cursor, PAGE_SIZE);
        let mut out: Vec<Json> = Vec::new();
        let mut i = start;
        while i < end
            invariant
                start <= i <= end,
                end <= self.resources.entries@.len(),
                out@.len() == i - start,
                forall|j: int|
                    0 <= j < out@.len() ==> lists_resource(
                        self.resources.entries@[start + j].1,
                        #[trigger] out@[j],
                    ),
            decreases end - i,
        {
            out.push(self.resources.entries[i].1.to_json());
            i = i + 1;
        }
        (out, next)
    }

    /// The page of templates after `cursor`, in template order, and the next cursor.
    pub fn list_templates(&self, cursor: &str) -> (r: (Vec<Json>, String))
        requires
            self.wf(),
        ensures
            r.0@.len() == page_keys(self.templates.keys(), cursor@, PAGE_SIZE as nat).len(),
            forall|i: int|
                0 <= i < r.0@.len() ==> lists_template(
                    self.templates.entries@[page_start(self.templates.keys(), cursor@) + i].1,
                    #[trigger] r.0@[i],
                ),
            r.1@ == next_cursor(self.templates.keys(), cursor@, PAGE_SIZE as nat),
    {
        let (start, end, next) = self.templates.page(cursor, PAGE_SIZE);
        let mut out: Vec<Json> = Vec::new();
        let mut i = start;
        while i < end
            invariant
                start <= i <= end,
                end <= self.templates.entries@.len(),
                out@.len() == i - start,
                forall|j: int|
                    0 <= j < out@.len() ==> lists_template(
                        self.templates.entries@[start + j].1,
                        #[trigger] out@[j],
                    ),
            decreases end - i,
        {
            out.push(self.templates.entries[i].1.to_json());
            i = i + 1;
        }
        (out, next)
    }
}

impl ResourceManager {
    /// The template with each `{name}` replaced by the value given for `name`; placeholders
    /// without a value stay as they are.
    pub fn expand_template(&self, template: &str, params: &Vec<(String, String)>) -> (r: String)
        ensures
            r@ == fill(template_parts(template@), substitutes(template_parts(template@), params@)),
    {
        let parts = split_template(template);
        let ghost ps = template_parts(template@);
        let ghost subs = substitutes(ps, params@);
        let mut out = String::new();
        let mut k: usize = 0;
        assert(ps.subrange(0, 0) =~= Seq::<Seq<char>>::empty());
        while k < parts.len()
            invariant
                parts@.len() == ps.len(),
                forall|j: int| 0 <= j < parts@.len() ==> #[trigger] parts@[j]@ == ps[j],
                subs == substitutes(ps, params@),
                k <= parts@.len(),
                out@ == fill(ps.subrange(0, k as int), subs),
            decreases parts@.len() - k,
        {
            let ghost next = ps.subrange(0, k + 1);
            assert(next.drop_last() =~= ps.subrange(0, k as int));
            if k % 2 == 0 {
                out.append(parts[k].as_str());
            } else {
                assert(2 * ((k - 1) / 2) + 1 == k);
                match find_param(params, parts[k].as_str()) {
                    Some(v) => out.append(v.as_str()),
                    None => {
                        proof {
                            reveal_strlit("{");
                            reveal_strlit("}");
                        }
                        let open = concat("{", parts[k].as_str());
                        let ph = concat(open.as_str(), "}");
                        out.append(ph.as_str());
                    },
                }
            }
            k = k + 1;
        }
        assert(ps.subrange(0, k as int) =~= ps);
        out
    }

    /// The parameters of `uri` read against `template`, or `None` when `uri` does not follow
    /// the template. Each parameter takes the text up to the first occurrence of the literal
    /// that follows it (the rest of the URI when that literal is empty), without decoding.
    /// Putting the values back into the template gives `uri` again.
    pub fn parse_template_parameters(&self, template: &str, uri: &str) -> (r: Option<Vec<(String, String)>>)
        ensures
            r matches Some(pairs) ==> (pairs@.len() == template_parts(template@).len() / 2 && (forall|k: int|
                0 <= k < pairs@.len() ==> #[trigger] pairs@[k].0@ == template_parts(template@)[2 * k + 1])
                && fill(template_parts(template@), values_of(pairs@)) == uri@),
            forall|vals: Seq<Seq<char>>|
                #[trigger] readable(template_parts(template@), vals) && fill(template_parts(template@), vals)
                    == uri@ ==> (r matches Some(pairs) && values_of(pairs@) == vals),
    {
        let parts = split_template(template);
        let ghost ps = template_parts(template@);
        let n = uri.unicode_len();
        let mut out: Vec<(String, String)> = Vec::new();
        let mut pos: usize = 0;
        let mut k: usize = 0;
        assert(ps.subrange(0, 0) =~= Seq::<Seq<char>>::empty());
        assert(uri@.subrange(0, 0) =~= Seq::<char>::empty());
        proof {
            assert forall|vals: Seq<Seq<char>>| #[trigger] readable(ps, vals) && fill(ps, vals) == uri@ implies
                uri@.subrange(0, n as int) == fill_from(ps, vals, 0) && values_of(out@) == vals.subrange(0, 0) by {
                lemma_fill_split(ps, vals, 0);
                assert(fill(ps.subrange(0, 0), vals) =~= Seq::<char>::empty());
                assert(fill(ps.subrange(0, 0), vals) + fill_from(ps, vals, 0) =~= fill_from(ps, vals, 0));
                assert(uri@.subrange(0, n as int) =~= uri@);
                assert(values_of(out@) =~= vals.subrange(0, 0));
            }
        }
        while k < parts.len()
            invariant
                ps == template_parts(template@),
                parts@.len() == ps.len(),
                forall|j: int| 0 <= j < parts@.len() ==> #[trigger] parts@[j]@ == ps[j],
                n == uri@.len(),
                k <= parts@.len(),
                pos <= n,
                out@.len() == k / 2,
                forall|j: int| 0 <= j < out@.len() ==> #[trigger] out@[j].0@ == ps[2 * j + 1],
                fill(ps.subrange(0, k as int), values_of(out@)) == uri@.subrange(0, pos as int),
                forall|vals: Seq<Seq<char>>|
                    #[trigger] readable(ps, vals) && fill(ps, vals) == uri@ ==> uri@.subrange(pos as int, n as int)
                        == fill_from(ps, vals, k as int) && values_of(out@) == vals.subrange(0, k as int / 2),
            decreases parts@.len() - k,
        {
            let ghost next = ps.subrange(0, k + 1);
            let ghost before = out@;
            let ghost pos0 = pos;
            assert(next.drop_last() =~= ps.subrange(0, k as int));
            let piece_text = parts[k].as_str();
            let m = piece_text.unicode_len();
            if k % 2 == 0 {
                if m > n - pos {
                    proof {
                        assert forall|vals: Seq<Seq<char>>| #[trigger] readable(ps, vals) implies fill(ps, vals) != uri@ by {
                            if fill(ps, vals) == uri@ {
                                assert(fill_from(ps, vals, k as int) == ps[k as int] + fill_from(ps, vals, k + 1));
                            }
                        }
                    }
                    return None;
                }
                if !str_eq(uri.substring_char(pos, pos + m), piece_text) {
                    proof {
                        assert forall|vals: Seq<Seq<char>>| #[trigger] readable(ps, vals) implies fill(ps, vals) != uri@ by {
                            if fill(ps, vals) == uri@ {
                                let f = fill_from(ps, vals, k as int);
                                assert(f == ps[k as int] + fill_from(ps, vals, k + 1));
                                assert(uri@.subrange(pos as int, (pos + m) as int) =~= f.subrange(0, m as int));
                                assert(f.subrange(0, m as int) =~= ps[k as int]);
                            }
                        }
                    }
                    return None;
                }
                assert(uri@.subrange(0, (pos + m) as int) =~= uri@.subrange(0, pos as int) + uri@.subrange(pos as int, (pos + m) as int));
                pos = pos + m;
                assert(k / 2 == (k + 1) / 2);
                proof {
                    assert forall|vals: Seq<Seq<char>>| #[trigger] readable(ps, vals) && fill(ps, vals) == uri@ implies
                        uri@.subrange(pos as int, n as int) == fill_from(ps, vals, k + 1) && values_of(out@)
                            == vals.subrange(0, (k as int + 1) / 2) by {
                        let f = fill_from(ps, vals, k as int);
                        assert(f == ps[k as int] + fill_from(ps, vals, k + 1));
                        assert(uri@.subrange(pos as int, n as int) =~= f.subrange(m as int, f.len() as int));
                        assert(f.subrange(m as int, f.len() as int) =~= fill_from(ps, vals, k + 1));
                    }
                }
            } else {
                let rest = uri.substring_char(pos, n);
                let len = if k + 1 < parts.len() && parts[k + 1].unicode_len() > 0 {
                    match find_substring(rest, parts[k + 1].as_str()) {
                        Some(i) => i,
                        None => n - pos,
                    }
                } else {
                    n - pos
                };
                let value = uri.substring_char(pos, pos + len);
                out.push((piece_text.to_owned(), value.to_owned()));
                proof {
                    assert(2 * ((k as int - 1) / 2) + 1 == k);
                    assert(out@.len() == (k + 1) / 2);
                    let vs = values_of(out@);
                    let vb = values_of(before);
                    assert forall|j: int| 0 <= j < vb.len() implies vb[j] == vs[j] by {
                        assert(out@[j] == before[j]);
                    }
                    lemma_fill_prefix_values(ps.subrange(0, k as int), vb, vs);
                    assert(vs[(k - 1) / 2] == value@);
                    assert(uri@.subrange(0, (pos + len) as int) =~= uri@.subrange(0, pos as int) + uri@.subrange(pos as int, (pos + len) as int));
                    assert forall|vals: Seq<Seq<char>>| #[trigger] readable(ps, vals) && fill(ps, vals) == uri@ implies
                        uri@.subrange((pos + len) as int, n as int) == fill_from(ps, vals, k + 1) && values_of(out@)
                            == vals.subrange(0, (k as int + 1) / 2) by {
                        let kk = k / 2;
                        let v = vals[kk as int];
                        assert(value_readable(ps, vals[kk as int], kk as int));
                        let f = fill_from(ps, vals, k as int);
                        assert(piece(ps, vals, k as int) == v);
                        assert(f == v + fill_from(ps, vals, k + 1));
                        assert(rest@ == f);
                        if k + 1 < ps.len() && ps[k + 1].len() > 0 {
                            let lit = ps[k + 1];
                            let g = fill_from(ps, vals, k + 2);
                            assert(fill_from(ps, vals, k + 1) == lit + g);
                            assert(f =~= (v + lit) + g);
                            assert(f.subrange(v.len() as int, (v.len() + lit.len()) as int) =~= lit);
                            assert(occurs_at(f, lit, v.len() as int));
                            assert(len == v.len()) by {
                                if len < v.len() {
                                    assert(occurs_at(f, lit, len as int));
                                    assert(f.subrange(len as int, (len + lit.len()) as int) =~= (v + lit).subrange(
                                        len as int,
                                        (len + lit.len()) as int,
                                    ));
                                    assert(occurs_at(v + lit, lit, len as int));
                                }
                            }
                        } else {
                            assert(k + 1 >= ps.len() - 1);
                            if k + 1 < ps.len() {
                                assert(fill_from(ps, vals, k + 2) =~= Seq::<char>::empty());
                                assert(fill_from(ps, vals, k + 1) =~= ps[k + 1] + fill_from(ps, vals, k + 2));
                            }
                            assert(fill_from(ps, vals, k + 1) =~= Seq::<char>::empty());
                            assert(f =~= v);
                        }
                        assert(value@ =~= f.subrange(0, len as int));
                        assert(value@ =~= v);
                        assert(uri@.subrange((pos + len) as int, n as int) =~= f.subrange(len as int, f.len() as int));
                        assert(f.subrange(len as int, f.len() as int) =~= fill_from(ps, vals, k + 1));
                        assert(values_of(before) == vals.subrange(0, k as int / 2));
                        assert(values_of(out@) =~= vals.subrange(0, (k as int + 1) / 2)) by {
                            assert(values_of(out@) =~= values_of(before).push(value@));
                        }
                    }
                }
                pos = pos + len;
            }
            k = k + 1;
        }
        if pos != n {
            proof {
                assert forall|vals: Seq<Seq<char>>| #[trigger] readable(ps, vals) implies fill(ps, vals) != uri@ by {
                    if fill(ps, vals) == uri@ {
                        assert(fill_from(ps, vals, k as int) =~= Seq::<char>::empty());
                    }
                }
            }
            return None;
        }
        assert(ps.subrange(0, k as int) =~= ps);
        assert(uri@.subrange(0, n as int) =~= uri@);
        proof {
            assert forall|vals: Seq<Seq<char>>| #[trigger] readable(ps, vals) && fill(ps, vals) == uri@ implies
                values_of(out@) == vals by {
                assert(vals.subrange(0, k as int / 2) =~= vals);
            }
        }
        Some(out)
    }
}

} // verus!
