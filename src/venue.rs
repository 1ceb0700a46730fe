//! The venue record that the pipeline fills, and the input row it starts from.
use vstd::prelude::*;
use crate::field_map::FieldMap;
use crate::text::{blank, chars_of, has_char, has_prefix, is_blank, starts_with, strings_view};

verus! {

broadcast use vstd::string::group_string_axioms;

/// One of the nine optional fields of a venue.
#[derive(Clone, Copy, Debug, PartialEq, Eq, Structural)]
pub enum Field {
    Description,
    Email,
    Phone,
    Website,
    FacebookUrl,
    TwitterUrl,
    InstagramUrl,
    LogoUrl,
    IdealPerformerProfile,
}

/// The number of optional fields of a venue.
pub const FIELD_COUNT: usize = 9;

/// The field at position `i` of the fixed field order.
pub open spec fn field_at(i: int) -> Field {
    if i <= 0 {
        Field::Description
    } else if i == 1 {
        Field::Email
    } else if i == 2 {
        Field::Phone
    } else if i == 3 {
        Field::Website
    } else if i == 4 {
        Field::FacebookUrl
    } else if i == 5 {
        Field::TwitterUrl
    } else if i == 6 {
        Field::InstagramUrl
    } else if i == 7 {
        Field::LogoUrl
    } else {
        Field::IdealPerformerProfile
    }
}

/// The name under which a field is keyed in maps and provenance.
pub open spec fn field_name(f: Field) -> Seq<char> {
    match f {
        Field::Description => "description"@,
        Field::Email => "email"@,
        Field::Phone => "phone"@,
        Field::Website => "website"@,
        Field::FacebookUrl => "facebook_url"@,
        Field::TwitterUrl => "twitter_url"@,
        Field::InstagramUrl => "instagram_url"@,
        Field::LogoUrl => "logo_url"@,
        Field::IdealPerformerProfile => "ideal_performer_profile"@,
    }
}

/// The field that `s` names, if any.
pub open spec fn field_named(s: Seq<char>) -> Option<Field> {
    if s == "description"@ {
        Some(Field::Description)
    } else if s == "email"@ {
        Some(Field::Email)
    } else if s == "phone"@ {
        Some(Field::Phone)
    } else if s == "website"@ {
        Some(Field::Website)
    } else if s == "facebook_url"@ {
        Some(Field::FacebookUrl)
    } else if s == "twitter_url"@ {
        Some(Field::TwitterUrl)
    } else if s == "instagram_url"@ {
        Some(Field::InstagramUrl)
    } else if s == "logo_url"@ {
        Some(Field::LogoUrl)
    } else if s == "ideal_performer_profile"@ {
        Some(Field::IdealPerformerProfile)
    } else {
        None
    }
}

/// Each field's name names that field, and no other.
pub proof fn lemma_field_names()
    ensures
        forall|f: Field| #[trigger] field_named(field_name(f)) == Some(f),
        forall|s: Seq<char>| #[trigger] field_named(s) is Some ==> field_name(field_named(s)->0) == s,
        forall|i: int| 0 <= i < 9 ==> field_named(field_name(#[trigger] field_at(i))) == Some(
            field_at(i),
        ),
{
    reveal_strlit("description");
    reveal_strlit("email");
    reveal_strlit("phone");
    reveal_strlit("website");
    reveal_strlit("facebook_url");
    reveal_strlit("twitter_url");
    reveal_strlit("instagram_url");
    reveal_strlit("logo_url");
    reveal_strlit("ideal_performer_profile");
    assert("description"@.len() != "email"@.len());
    assert("description"@.len() != "phone"@.len());
    assert("description"@.len() != "website"@.len());
    assert("description"@.len() != "facebook_url"@.len());
    assert("description"@[0] != "twitter_url"@[0]);
    assert("description"@.len() != "instagram_url"@.len());
    assert("description"@.len() != "logo_url"@.len());
    assert("description"@.len() != "ideal_performer_profile"@.len());
    assert("email"@[0] != "phone"@[0]);
    assert("email"@.len() != "website"@.len());
    assert("email"@.len() != "facebook_url"@.len());
    assert("email"@.len() != "twitter_url"@.len());
    assert("email"@.len() != "instagram_url"@.len());
    assert("email"@.len() != "logo_url"@.len());
    assert("email"@.len() != "ideal_performer_profile"@.len());
    assert("phone"@.len() != "website"@.len());
    assert("phone"@.len() != "facebook_url"@.len());
    assert("phone"@.len() != "twitter_url"@.len());
    assert("phone"@.len() != "instagram_url"@.len());
    assert("phone"@.len() != "logo_url"@.len());
    assert("phone"@.len() != "ideal_performer_profile"@.len());
    assert("website"@.len() != "facebook_url"@.len());
    assert("website"@.len() != "twitter_url"@.len());
    assert("website"@.len() != "instagram_url"@.len());
    assert("website"@.len() != "logo_url"@.len());
    assert("website"@.len() != "ideal_performer_profile"@.len());
    assert("facebook_url"@.len() != "twitter_url"@.len());
    assert("facebook_url"@.len() != "instagram_url"@.len());
    assert("facebook_url"@.len() != "logo_url"@.len());
    assert("facebook_url"@.len() != "ideal_performer_profile"@.len());
    assert("twitter_url"@.len() != "instagram_url"@.len());
    assert("twitter_url"@.len() != "logo_url"@.len());
    assert("twitter_url"@.len() != "ideal_performer_profile"@.len());
    assert("instagram_url"@.len() != "logo_url"@.len());
    assert("instagram_url"@.len() != "ideal_performer_profile"@.len());
    assert("logo_url"@.len() != "ideal_performer_profile"@.len());
}

impl Field {
    /// The field at position `i` of the fixed field order.
    pub fn at(i: usize) -> (r: Field)
        requires
            i < FIELD_COUNT,
        ensures
            r == field_at(i as int),
    {
        if i == 0 {
            Field::Description
        } else if i == 1 {
            Field::Email
        } else if i == 2 {
            Field::Phone
        } else if i == 3 {
            Field::Website
        } else if i == 4 {
            Field::FacebookUrl
        } else if i == 5 {
            Field::TwitterUrl
        } else if i == 6 {
            Field::InstagramUrl
        } else if i == 7 {
            Field::LogoUrl
        } else {
            Field::IdealPerformerProfile
        }
    }

    /// The field's name.
    pub fn name(&self) -> (r: String)
        ensures
            r@ == field_name(*self),
    {
        match self {
            Field::Description => String::from_str("description"),
            Field::Email => String::from_str("email"),
            Field::Phone => String::from_str("phone"),
            Field::Website => String::from_str("website"),
            Field::FacebookUrl => String::from_str("facebook_url"),
            Field::TwitterUrl => String::from_str("twitter_url"),
            Field::InstagramUrl => String::from_str("instagram_url"),
            Field::LogoUrl => String::from_str("logo_url"),
            Field::IdealPerformerProfile => String::from_str("ideal_performer_profile"),
        }
    }

    /// The field that `name` names, if any.
    pub fn from_name(name: &str) -> (r: Option<Field>)
        ensures
            r == field_named(name@),
    {
        let n = String::from_str(name);
        if n == String::from_str("description") {
            Some(Field::Description)
        } else if n == String::from_str("email") {
            Some(Field::Email)
        } else if n == String::from_str("phone") {
            Some(Field::Phone)
        } else if n == String::from_str("website") {
            Some(Field::Website)
        } else if n == String::from_str("facebook_url") {
            Some(Field::FacebookUrl)
        } else if n == String::from_str("twitter_url") {
            Some(Field::TwitterUrl)
        } else if n == String::from_str("instagram_url") {
            Some(Field::InstagramUrl)
        } else if n == String::from_str("logo_url") {
            Some(Field::LogoUrl)
        } else if n == String::from_str("ideal_performer_profile") {
            Some(Field::IdealPerformerProfile)
        } else {
            None
        }
    }
}

/// One row of input: a venue's name and optional free text about it.
#[derive(Clone, Debug)]
pub struct VenueInput {
    pub name: String,
    pub context: Option<String>,
}

/// A venue and what the pipeline found about it. Each set field has a
/// provenance entry, under the field's name, naming the source of its value.
#[derive(Clone, Debug)]
pub struct Venue {
    pub name: String,
    pub description: Option<String>,
    pub email: Option<String>,
    pub phone: Option<String>,
    pub website: Option<String>,
    pub facebook_url: Option<String>,
    pub twitter_url: Option<String>,
    pub instagram_url: Option<String>,
    pub logo_url: Option<String>,
    pub ideal_performer_profile: Option<String>,
    pub provenance: Option<FieldMap>,
}

/// Why a venue does not pass validation.
#[derive(Clone, Copy, Debug, PartialEq, Eq, Structural)]
pub enum VenueProblem {
    /// The name is empty or white space.
    EmptyName,
    /// The email has no `@` or fewer than five characters.
    BadEmail,
    /// The website does not start with `http://` or `https://`.
    BadWebsite,
}

/// The value of field `f` of `v`.
pub open spec fn value_of(v: Venue, f: Field) -> Option<Seq<char>> {
    match f {
        Field::Description => v.description.deep_view(),
        Field::Email => v.email.deep_view(),
        Field::Phone => v.phone.deep_view(),
        Field::Website => v.website.deep_view(),
        Field::FacebookUrl => v.facebook_url.deep_view(),
        Field::TwitterUrl => v.twitter_url.deep_view(),
        Field::InstagramUrl => v.instagram_url.deep_view(),
        Field::LogoUrl => v.logo_url.deep_view(),
        Field::IdealPerformerProfile => v.ideal_performer_profile.deep_view(),
    }
}

/// The provenance of `v` as a map (empty where it has none).
pub open spec fn provenance_of(v: Venue) -> Map<Seq<char>, Seq<char>> {
    match v.provenance {
        Some(m) => m@,
        None => Map::empty(),
    }
}

/// The names of the unset fields of `v` among the first `n`, in field order.
pub open spec fn missing_upto(v: Venue, n: int) -> Seq<Seq<char>>
    decreases n,
{
    if n <= 0 {
        Seq::empty()
    } else if value_of(v, field_at(n - 1)) is None {
        missing_upto(v, n - 1).push(field_name(field_at(n - 1)))
    } else {
        missing_upto(v, n - 1)
    }
}

/// The names of the unset fields of `v`, in field order.
pub open spec fn missing_names(v: Venue) -> Seq<Seq<char>> {
    missing_upto(v, 9)
}

/// `b` keeps everything that `a` holds: the same name, every set field with
/// the same value, and that field's provenance unchanged.
pub open spec fn extends(a: Venue, b: Venue) -> bool {
    &&& b.name@ == a.name@
    &&& forall|f: Field|
        value_of(a, f) is Some ==> {
            &&& #[trigger] value_of(b, f) == value_of(a, f)
            &&& provenance_of(b).contains_key(field_name(f))
            &&& provenance_of(b)[field_name(f)] == provenance_of(a)[field_name(f)]
        }
}

/// Every field of `new` that was unset in `old` holds the value that `m`
/// gives under the field's name, with `source` as its provenance, or is
/// still unset where `m` has no such entry.
pub open spec fn filled_from(
    old: Venue,
    new: Venue,
    m: Map<Seq<char>, Seq<char>>,
    source: Seq<char>,
) -> bool {
    forall|f: Field|
        value_of(old, f) is None ==> if m.contains_key(field_name(f)) {
            &&& #[trigger] value_of(new, f) == Some(m[field_name(f)])
            &&& provenance_of(new)[field_name(f)] == source
        } else {
            value_of(new, f) is None
        }
}

/// Filling a venue never undoes what an earlier stage filled: `extends` holds
/// of a venue and itself, and carries over from stage to stage.
pub proof fn lemma_extends_chain(a: Venue, b: Venue, c: Venue)
    requires
        a.wf(),
        extends(a, b),
        extends(b, c),
    ensures
        extends(a, a),
        extends(a, c),
{
    assert forall|f: Field| value_of(a, f) is Some implies #[trigger] value_of(c, f) == value_of(
        a,
        f,
    ) by {
        assert(value_of(b, f) == value_of(a, f));
    }
}

/// Over a whole run, whose every stage only adds to the venue, no field
/// once set is ever cleared or changed: each later venue extends each earlier one.
pub proof fn lemma_run_only_adds(vs: Seq<Venue>, i: int, j: int)
    requires
        forall|k: int| 0 <= k < vs.len() - 1 ==> extends(#[trigger] vs[k], vs[k + 1]),
        0 <= i <= j < vs.len(),
        vs[i].wf(),
    ensures
        extends(vs[i], vs[j]),
    decreases j - i,
{
    if i < j {
        lemma_run_only_adds(vs, i, j - 1);
        assert(extends(vs[j - 1], vs[j]));
        lemma_extends_chain(vs[i], vs[j - 1], vs[j]);
    } else {
        lemma_extends_chain(vs[i], vs[i], vs[i]);
    }
}

/// The index of the first of the first `n` maps of `ms` with key `k`, or `n`.
pub open spec fn first_supplier(ms: Seq<Map<Seq<char>, Seq<char>>>, k: Seq<char>, n: int) -> int
    decreases n,
{
    if n <= 0 {
        0
    } else {
        let p = first_supplier(ms, k, n - 1);
        if p < n - 1 {
            p
        } else if ms[n - 1].contains_key(k) {
            n - 1
        } else {
            n
        }
    }
}

/// The first source wins, over a whole run. The run starts from a venue with
/// no field set; at each stage `k` the venue only grows (`extends`) and its
/// unset fields are filled from the map `ms[k]` found at source `srcs[k]` (a
/// stage that finds nothing fills from the empty map). Then after `m` stages
/// a field is set exactly when one of the first `m` maps has a value for it,
/// and it holds the value of the first such map, with that map's source as
/// its provenance: a later source never clears or changes it.
pub proof fn lemma_first_source_wins(
    vs: Seq<Venue>,
    ms: Seq<Map<Seq<char>, Seq<char>>>,
    srcs: Seq<Seq<char>>,
    m: int,
)
    requires
        ms.len() == srcs.len(),
        vs.len() == ms.len() + 1,
        0 <= m <= ms.len(),
        forall|f: Field| #[trigger] value_of(vs[0], f) is None,
        forall|k: int|
            0 <= k < ms.len() ==> extends(#[trigger] vs[k], vs[k + 1]) && filled_from(
                vs[k],
                vs[k + 1],
                ms[k],
                srcs[k],
            ),
    ensures
        forall|f: Field|
            {
                let i = #[trigger] first_supplier(ms, field_name(f), m);
                &&& 0 <= i <= m
                &&& (value_of(vs[m], f) is Some <==> i < m)
                &&& i < m ==> value_of(vs[m], f) == Some(ms[i][field_name(f)])
                    && provenance_of(vs[m])[field_name(f)] == srcs[i]
            },
    decreases m,
{
    if m > 0 {
        lemma_first_source_wins(vs, ms, srcs, m - 1);
        assert(extends(vs[m - 1], vs[m]) && filled_from(vs[m - 1], vs[m], ms[m - 1], srcs[m - 1]));
        assert forall|f: Field|
            {
                let i = #[trigger] first_supplier(ms, field_name(f), m);
                &&& 0 <= i <= m
                &&& (value_of(vs[m], f) is Some <==> i < m)
                &&& i < m ==> value_of(vs[m], f) == Some(ms[i][field_name(f)])
                    && provenance_of(vs[m])[field_name(f)] == srcs[i]
            } by {
            let p = first_supplier(ms, field_name(f), m - 1);
            if p < m - 1 {
                assert(value_of(vs[m - 1], f) is Some);
                assert(value_of(vs[m], f) == value_of(vs[m - 1], f));
            }
        }
    }
}

fn fill(slot: &mut Option<String>, value: String) -> (filled: bool)
    ensures
        filled == (*old(slot) is None),
        filled ==> final(slot).deep_view() == Some(value@),
        !filled ==> *final(slot) == *old(slot),
{
    if slot.is_none() {
        *slot = Some(value);
        true
    } else {
        false
    }
}

impl Venue {
    /// Well-formed: the provenance is present and has an entry exactly for
    /// the set fields.
    pub open spec fn wf(self) -> bool {
        &&& self.provenance is Some
        &&& self.provenance->0.wf()
        &&& forall|f: Field|
            #[trigger] value_of(self, f) is Some <==> provenance_of(self).contains_key(
                field_name(f),
            )
        &&& forall|k: Seq<char>| #[trigger]
            provenance_of(self).contains_key(k) ==> field_named(k) is Some
    }

    /// A venue with the given name and no field set.
    pub fn new(name: String) -> (r: Venue)
        ensures
            r.wf(),
            r.name@ == name@,
            forall|f: Field| #[trigger] value_of(r, f) is None,
            provenance_of(r) == Map::<Seq<char>, Seq<char>>::empty(),
    {
        Venue {
            name,
            description: None,
            email: None,
            phone: None,
            website: None,
            facebook_url: None,
            twitter_url: None,
            instagram_url: None,
            logo_url: None,
            ideal_performer_profile: None,
            provenance: Some(FieldMap::new()),
        }
    }

    /// Sets the named field to `value`, recording `source` as its origin,
    /// where the name is a field's and that field is not set yet. Otherwise
    /// the venue stays as it is: a set field is never overwritten.
    pub fn set_field_with_source(&mut self, field: &str, value: String, source: String)
        requires
            old(self).wf(),
        ensures
            final(self).wf(),
            extends(*old(self), *final(self)),
            match field_named(field@) {
                Some(f) => if value_of(*old(self), f) is None {
                    &&& value_of(*final(self), f) == Some(value@)
                    &&& provenance_of(*final(self)) == provenance_of(*old(self)).insert(
                        field@,
                        source@,
                    )
                    &&& forall|g: Field|
                        g != f ==> #[trigger] value_of(*final(self), g) == value_of(*old(self), g)
                } else {
                    *final(self) == *old(self)
                },
                None => *final(self) == *old(self),
            },
    {
        proof {
            lemma_field_names();
        }
        let f = match Field::from_name(field) {
            Some(f) => f,
            None => {
                return;
            },
        };
        let filled = match f {
            Field::Description => fill(&mut self.description, value),
            Field::Email => fill(&mut self.email, value),
            Field::Phone => fill(&mut self.phone, value),
            Field::Website => fill(&mut self.website, value),
            Field::FacebookUrl => fill(&mut self.facebook_url, value),
            Field::TwitterUrl => fill(&mut self.twitter_url, value),
            Field::InstagramUrl => fill(&mut self.instagram_url, value),
            Field::LogoUrl => fill(&mut self.logo_url, value),
            Field::IdealPerformerProfile => fill(&mut self.ideal_performer_profile, value),
        };
        if filled {
            let key = String::from_str(field);
            match &mut self.provenance {
                Some(p) => {
                    p.insert(key, source);
                },
                None => {},
            }
            proof {
                assert(field_name(f) == field@);
                assert(provenance_of(*self) == provenance_of(*old(self)).insert(field@, source@));
                assert(forall|g: Field| g != f ==> #[trigger] value_of(*self, g) == value_of(*old(self), g));
                assert forall|g: Field|
                    #[trigger] value_of(*self, g) is Some <==> provenance_of(*self).contains_key(
                        field_name(g),
                    ) by {
                    if g != f {
                        assert(field_named(field_name(g)) == Some(g));
                    }
                }
            }
        }
    }

    /// Sets every unset field that `fields` has a value for, recording
    /// `source` as its origin; entries that name no field are ignored.
    pub fn fill_from(&mut self, fields: &FieldMap, source: &str)
        requires
            old(self).wf(),
            fields.wf(),
        ensures
            final(self).wf(),
            extends(*old(self), *final(self)),
            filled_from(*old(self), *final(self), fields@, source@),
    {
        proof {
            lemma_field_names();
        }
        let ghost start = *self;
        let ghost p = fields.pairs();
        let n = fields.len();
        let mut k: usize = 0;
        while k < n
            invariant
                fields.wf(),
                p == fields.pairs(),
                n == p.len(),
                k <= n,
                self.wf(),
                start.wf(),
                extends(start, *self),
                filled_from(start, *self, crate::field_map::pairs_map(p.take(k as int)), source@),
                forall|f: Field| #[trigger] field_named(field_name(f)) == Some(f),
                forall|s: Seq<char>| #[trigger]
                    field_named(s) is Some ==> field_name(field_named(s)->0) == s,
            decreases n - k,
        {
            let ghost before = *self;
            let name = fields.key_at(k);
            let value = fields.value_at(k).clone();
            proof {
                let t = p.take(k + 1);
                assert(t.drop_last() =~= p.take(k as int));
                assert(t.last() == p[k as int]);
                assert forall|i: int| 0 <= i < p.take(k as int).len() implies (#[trigger] p.take(
                    k as int,
                )[i]).0 != p[k as int].0 by {
                    assert(p.take(k as int)[i] == p[i]);
                }
                crate::field_map::lemma_pairs_absent(p.take(k as int), p[k as int].0);
            }
            self.set_field_with_source(name.as_str(), value, String::from_str(source));
            proof {
                let m0 = crate::field_map::pairs_map(p.take(k as int));
                let m1 = crate::field_map::pairs_map(p.take(k + 1));
                assert(m1 == m0.insert(p[k as int].0, p[k as int].1));
                assert forall|f: Field| value_of(start, f) is None implies if m1.contains_key(
                    field_name(f),
                ) {
                    &&& #[trigger] value_of(*self, f) == Some(m1[field_name(f)])
                    &&& provenance_of(*self)[field_name(f)] == source@
                } else {
                    value_of(*self, f) is None
                } by {
                    if field_name(f) == p[k as int].0 {
                        assert(field_named(name@) == Some(f));
                        assert(!m0.contains_key(field_name(f)));
                        assert(value_of(before, f) is None);
                    } else {
                        if field_named(name@) is Some {
                            let g = field_named(name@)->0;
                            assert(field_name(g) == name@);
                            assert(g != f);
                        }
                        assert(value_of(*self, f) == value_of(before, f));
                        if m0.contains_key(field_name(f)) {
                            assert(provenance_of(before).contains_key(field_name(f)));
                        }
                    }
                }
            }
            k = k + 1;
        }
        proof {
            assert(p.take(n as int) =~= p);
        }
    }

    /// Whether the venue has a description.
    pub fn is_complete(&self) -> (r: bool)
        ensures
            r == (value_of(*self, Field::Description) is Some),
    {
        self.description.is_some()
    }

    fn is_unset(&self, f: Field) -> (r: bool)
        ensures
            r == (value_of(*self, f) is None),
    {
        match f {
            Field::Description => self.description.is_none(),
            Field::Email => self.email.is_none(),
            Field::Phone => self.phone.is_none(),
            Field::Website => self.website.is_none(),
            Field::FacebookUrl => self.facebook_url.is_none(),
            Field::TwitterUrl => self.twitter_url.is_none(),
            Field::InstagramUrl => self.instagram_url.is_none(),
            Field::LogoUrl => self.logo_url.is_none(),
            Field::IdealPerformerProfile => self.ideal_performer_profile.is_none(),
        }
    }

    /// The names of the fields not set yet, in field order.
    pub fn missing_fields(&self) -> (r: Vec<String>)
        ensures
            strings_view(r@) == missing_names(*self),
    {
        let mut out: Vec<String> = Vec::new();
        let mut i: usize = 0;
        while i < FIELD_COUNT
            invariant
                i <= FIELD_COUNT,
                strings_view(out@) == missing_upto(*self, i as int),
            decreases FIELD_COUNT - i,
        {
            let f = Field::at(i);
            if self.is_unset(f) {
                let ghost before = out@;
                out.push(f.name());
                proof {
                    assert(strings_view(out@) =~= strings_view(before).push(field_name(f)));
                }
            }
            i = i + 1;
        }
        out
    }

    /// Checks the name, email and website of the venue.
    pub fn validate(&self) -> (r: Result<(), VenueProblem>)
        ensures
            r == venue_problem(*self),
    {
        let name = chars_of(self.name.as_str());
        if blank(&name) {
            return Err(VenueProblem::EmptyName);
        }
        match &self.email {
            Some(e) => {
                let c = chars_of(e.as_str());
                if !has_char(&c, '@') || c.len() < 5 {
                    return Err(VenueProblem::BadEmail);
                }
            },
            None => {},
        }
        match &self.website {
            Some(w) => {
                let c = chars_of(w.as_str());
                let http = chars_of("http://");
                let https = chars_of("https://");
                if !has_prefix(&c, &http) && !has_prefix(&c, &https) {
                    return Err(VenueProblem::BadWebsite);
                }
            },
            None => {},
        }
        Ok(())
    }
}

/// What validation reports of `v`: the first problem in the order name,
/// email, website, if any.
pub open spec fn venue_problem(v: Venue) -> Result<(), VenueProblem> {
    if is_blank(v.name@) {
        Err(VenueProblem::EmptyName)
    } else if v.email is Some && (!v.email->0@.contains('@') || v.email->0@.len() < 5) {
        Err(VenueProblem::BadEmail)
    } else if v.website is Some && !starts_with(v.website->0@, "http://"@) && !starts_with(
        v.website->0@,
        "https://"@,
    ) {
        Err(VenueProblem::BadWebsite)
    } else {
        Ok(())
    }
}

impl Default for Venue {
    fn default() -> (r: Venue)
        ensures
            r.wf(),
            r.name@ == Seq::<char>::empty(),
            forall|f: Field| #[trigger] value_of(r, f) is None,
    {
        Venue::new(String::new())
    }
}

} // verus!
