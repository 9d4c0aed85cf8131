//! Entity descriptions as given on the command line, `Name:field:type,...`,
//! and the names derived from them.

use crate::text::{
    ascii_lower, chars_of, extend_chars, find_char, has_uppercase_property, position, slice_of,
    split, split_chars, str_eq, string_of, string_views, trim, trim_chars, views,
};
use vstd::prelude::*;

verus! {

/// A field of a described entity: its name and the name of its type.
#[derive(Debug)]
pub struct FieldSpec {
    pub name: String,
    pub ty: String,
}

/// A [`FieldSpec`] as plain values.
pub struct FieldSpecView {
    pub name: Seq<char>,
    pub ty: Seq<char>,
}

impl View for FieldSpec {
    type V = FieldSpecView;

    open spec fn view(&self) -> FieldSpecView {
        FieldSpecView { name: self.name@, ty: self.ty@ }
    }
}

/// A described entity: its name and its fields in order.
#[derive(Debug)]
pub struct EntitySpec {
    pub name: String,
    pub fields: Vec<FieldSpec>,
}

/// An [`EntitySpec`] as plain values.
pub struct EntitySpecView {
    pub name: Seq<char>,
    pub fields: Seq<FieldSpecView>,
}

/// The fields of an entity, as plain values.
pub open spec fn field_views(fields: Seq<FieldSpec>) -> Seq<FieldSpecView> {
    Seq::new(fields.len(), |i: int| fields[i]@)
}

impl View for EntitySpec {
    type V = EntitySpecView;

    open spec fn view(&self) -> EntitySpecView {
        EntitySpecView { name: self.name@, fields: field_views(self.fields@) }
    }
}

/// The snake-case form of a name: before every upper-case character but
/// the first character of the name stands a `_`, and the upper-case
/// characters `A` to `Z` are put in lower case.
pub open spec fn snake_case(s: Seq<char>) -> Seq<char>
    decreases s.len(),
{
    if s.len() == 0 {
        Seq::empty()
    } else {
        let head = snake_case(s.drop_last());
        let c = s.last();
        if has_uppercase_property(c) {
            (if s.len() > 1 {
                head.push('_')
            } else {
                head
            }).push(ascii_lower(c))
        } else {
            head.push(c)
        }
    }
}

/// The snake-case form of `input`; see [`snake_case`].
pub fn to_snake_case(input: &str) -> (out: String)
    ensures
        out@ == snake_case(input@),
{
    let chars = chars_of(input);
    let mut out: Vec<char> = Vec::new();
    let mut i: usize = 0;
    assert(chars@.take(0) =~= Seq::<char>::empty());
    while i < chars.len()
        invariant
            i <= chars@.len(),
            out@ == snake_case(chars@.take(i as int)),
        decreases chars@.len() - i,
    {
        let ch = chars[i];
        proof {
            let next = chars@.take(i + 1);
            assert(next.drop_last() =~= chars@.take(i as int));
            assert(next.last() == ch);
        }
        if ch.is_uppercase() {
            if i > 0 {
                out.push('_');
            }
            out.push(ch.to_ascii_lowercase());
        } else {
            out.push(ch);
        }
        i += 1;
    }
    assert(chars@.take(chars@.len() as int) =~= chars@);
    string_of(&out)
}

/// The index of the first field named `id`, or the number of fields.
pub open spec fn id_index(fields: Seq<FieldSpecView>) -> int
    decreases fields.len(),
{
    if fields.len() == 0 || fields[0].name == "id"@ {
        0
    } else {
        1 + id_index(fields.drop_first())
    }
}

/// `id_index` is the least index of a field named `id`.
pub proof fn lemma_id_index(fields: Seq<FieldSpecView>)
    ensures
        0 <= id_index(fields) <= fields.len(),
        forall|j: int| 0 <= j < id_index(fields) ==> (#[trigger] fields[j]).name != "id"@,
        id_index(fields) < fields.len() ==> fields[id_index(fields)].name == "id"@,
    decreases fields.len(),
{
    if fields.len() == 0 || fields[0].name == "id"@ {
    } else {
        let rest = fields.drop_first();
        lemma_id_index(rest);
        assert forall|j: int| 0 <= j < id_index(fields) implies (#[trigger] fields[j]).name
            != "id"@ by {
            if j > 0 {
                assert(fields[j] == rest[j - 1]);
            }
        }
        if id_index(fields) < fields.len() {
            assert(fields[id_index(fields)] == rest[id_index(rest)]);
        }
    }
}

/// An index that is the least one of a field named `id` is `id_index`.
pub proof fn lemma_id_index_unique(fields: Seq<FieldSpecView>, i: int)
    requires
        0 <= i <= fields.len(),
        forall|j: int| 0 <= j < i ==> (#[trigger] fields[j]).name != "id"@,
        i < fields.len() ==> fields[i].name == "id"@,
    ensures
        id_index(fields) == i,
{
    lemma_id_index(fields);
    let p = id_index(fields);
    if p < i {
        assert(fields[p].name != "id"@);
    } else if i < p {
        assert(fields[i].name != "id"@);
    }
}

/// The index of the first field named `id`, or the number of fields.
pub fn find_id(fields: &Vec<FieldSpec>) -> (i: usize)
    ensures
        i == id_index(field_views(fields@)),
        i <= fields@.len(),
{
    let mut i: usize = 0;
    while i < fields.len() && !str_eq(fields[i].name.as_str(), "id")
        invariant
            i <= fields@.len(),
            forall|j: int| 0 <= j < i ==> (#[trigger] field_views(fields@)[j]).name != "id"@,
        decreases fields@.len() - i,
    {
        i += 1;
    }
    proof {
        lemma_id_index_unique(field_views(fields@), i as int);
    }
    i
}

impl EntitySpec {
    /// The entity's id field: the first field named `id`, or the first
    /// field where none has that name.
    pub fn id_field(&self) -> (f: &FieldSpec)
        requires
            self.fields@.len() > 0,
        ensures
            f@ == (if id_index(self@.fields) < self@.fields.len() {
                self@.fields[id_index(self@.fields)]
            } else {
                self@.fields[0]
            }),
    {
        let i = find_id(&self.fields);
        if i < self.fields.len() {
            &self.fields[i]
        } else {
            &self.fields[0]
        }
    }

    /// The entity's name in snake case.
    pub fn snake_name(&self) -> (s: String)
        ensures
            s@ == snake_case(self.name@),
    {
        to_snake_case(self.name.as_str())
    }

    /// The plural of the snake-case name: `es` follows a final `s`, and `s`
    /// anything else.
    pub fn plural_snake_name(&self) -> (s: String)
        ensures
            s@ == plural(snake_case(self.name@)),
    {
        let mut base = chars_of(self.snake_name().as_str());
        let n = base.len();
        if n > 0 && base[n - 1] == 's' {
            base.push('e');
        }
        base.push('s');
        string_of(&base)
    }
}

/// The plural of a name: `es` follows a final `s`, and `s` anything else.
pub open spec fn plural(base: Seq<char>) -> Seq<char> {
    if base.len() > 0 && base.last() == 's' {
        base.push('e').push('s')
    } else {
        base.push('s')
    }
}

/// What one piece of a field list holds: nothing where it is blank; else a
/// field `name:type`, both trimmed and neither empty, or the message that
/// says what is wrong with it.
pub open spec fn field_of(piece: Seq<char>) -> Option<Result<FieldSpecView, Seq<char>>> {
    let field = trim(piece);
    let colon = position(field, ':');
    if field.len() == 0 {
        None
    } else if colon >= field.len() {
        Some(Err("field type missing"@))
    } else if trim(field.take(colon)).len() == 0 || trim(field.skip(colon + 1)).len() == 0 {
        Some(Err("invalid field definition: "@ + field))
    } else {
        Some(Ok(FieldSpecView { name: trim(field.take(colon)), ty: trim(field.skip(colon + 1)) }))
    }
}

/// The fields that the first `k` pieces hold, or the message of the first
/// piece with something wrong.
pub open spec fn fields_of(pieces: Seq<Seq<char>>, k: int) -> Result<
    Seq<FieldSpecView>,
    Seq<char>,
>
    decreases k,
{
    if k <= 0 {
        Ok(Seq::empty())
    } else {
        match fields_of(pieces, k - 1) {
            Err(message) => Err(message),
            Ok(fields) => match field_of(pieces[k - 1]) {
                None => Ok(fields),
                Some(Ok(field)) => Ok(fields.push(field)),
                Some(Err(message)) => Err(message),
            },
        }
    }
}

/// The field that an entity gets where it declares no `id`.
pub open spec fn default_id() -> FieldSpecView {
    FieldSpecView { name: "id"@, ty: "i64"@ }
}

/// The entity that `input` describes. The name stands before the first
/// `:`, the fields after it, separated by `,`. An entity without a field
/// named `id` gets the field `id: i64` before its own.
pub open spec fn entity_spec_of(input: Seq<char>) -> Result<EntitySpecView, Seq<char>> {
    let colon = position(input, ':');
    let name = trim(input.take(colon));
    let pieces = split(trim(input.skip(colon + 1)), ',');
    if colon >= input.len() {
        Err("missing fields (expected Name:field:type,...)"@)
    } else if name.len() == 0 {
        Err("entity name cannot be empty"@)
    } else {
        match fields_of(pieces, pieces.len() as int) {
            Err(message) => Err(message),
            Ok(fields) => if fields.len() == 0 {
                Err("at least one field is required"@)
            } else if id_index(fields) < fields.len() {
                Ok(EntitySpecView { name, fields })
            } else {
                Ok(EntitySpecView { name, fields: seq![default_id()] + fields })
            },
        }
    }
}

/// Reads one piece of a field list; see [`field_of`].
pub fn parse_field(piece: &Vec<char>) -> (r: Option<Result<FieldSpec, String>>)
    ensures
        match r {
            None => field_of(piece@) is None,
            Some(Ok(f)) => field_of(piece@) == Some(Ok::<FieldSpecView, Seq<char>>(f@)),
            Some(Err(e)) => field_of(piece@) == Some(Err::<FieldSpecView, Seq<char>>(e@)),
        },
{
    let field = trim_chars(piece);
    if field.len() == 0 {
        return None;
    }
    let colon = find_char(&field, ':');
    if colon >= field.len() {
        return Some(Err("field type missing".to_owned()));
    }
    let name = trim_chars(&slice_of(&field, 0, colon));
    let ty = trim_chars(&slice_of(&field, colon + 1, field.len()));
    proof {
        assert(field@.subrange(0, colon as int) == field@.take(colon as int));
        assert(field@.subrange(colon + 1, field@.len() as int) == field@.skip(colon + 1));
    }
    if name.len() == 0 || ty.len() == 0 {
        let mut message = chars_of("invalid field definition: ");
        extend_chars(&mut message, &field);
        return Some(Err(string_of(&message)));
    }
    Some(Ok(FieldSpec { name: string_of(&name), ty: string_of(&ty) }))
}

/// Reads the description of an entity; see [`entity_spec_of`].
pub fn parse_entity_spec(input: &str) -> (r: Result<EntitySpec, String>)
    ensures
        match r {
            Ok(spec) => entity_spec_of(input@) == Ok::<EntitySpecView, Seq<char>>(spec@),
            Err(e) => entity_spec_of(input@) == Err::<EntitySpecView, Seq<char>>(e@),
        },
{
    let chars = chars_of(input);
    let colon = find_char(&chars, ':');
    if colon >= chars.len() {
        return Err("missing fields (expected Name:field:type,...)".to_owned());
    }
    let name = trim_chars(&slice_of(&chars, 0, colon));
    let fields_part = trim_chars(&slice_of(&chars, colon + 1, chars.len()));
    proof {
        assert(chars@.subrange(0, colon as int) == chars@.take(colon as int));
        assert(chars@.subrange(colon + 1, chars@.len() as int) == chars@.skip(colon + 1));
    }
    if name.len() == 0 {
        return Err("entity name cannot be empty".to_owned());
    }
    let pieces = split_chars(&fields_part, ',');
    let ghost ps = views(pieces@);
    let mut fields: Vec<FieldSpec> = Vec::new();
    let mut k: usize = 0;
    assert(field_views(fields@) =~= Seq::<FieldSpecView>::empty());
    while k < pieces.len()
        invariant
            k <= pieces@.len(),
            ps == views(pieces@),
            fields_of(ps, ps.len() as int) matches Err(m) ==> entity_spec_of(input@) == Err::<
                EntitySpecView,
                Seq<char>,
            >(m),
            fields_of(ps, k as int) == Ok::<Seq<FieldSpecView>, Seq<char>>(field_views(fields@)),
        decreases pieces@.len() - k,
    {
        assert(ps[k as int] == pieces@[k as int]@);
        let ghost before = field_views(fields@);
        match parse_field(&pieces[k]) {
            None => {},
            Some(Ok(field)) => {
                fields.push(field);
                assert(field_views(fields@) =~= before.push(field@));
            },
            Some(Err(message)) => {
                proof {
                    lemma_fields_of_fails(ps, k + 1, pieces@.len() as int);
                }
                return Err(message);
            },
        }
        k += 1;
    }
    if fields.len() == 0 {
        return Err("at least one field is required".to_owned());
    }
    if find_id(&fields) >= fields.len() {
        let ghost before = field_views(fields@);
        fields.insert(0, FieldSpec { name: "id".to_owned(), ty: "i64".to_owned() });
        assert(field_views(fields@) =~= seq![default_id()] + before);
    }
    Ok(EntitySpec { name: string_of(&name), fields })
}

/// Once a piece has failed, the failure stays whatever pieces follow.
pub proof fn lemma_fields_of_fails(pieces: Seq<Seq<char>>, k: int, n: int)
    requires
        0 <= k <= n,
        fields_of(pieces, k) is Err,
    ensures
        fields_of(pieces, n) == fields_of(pieces, k),
    decreases n - k,
{
    if k < n {
        lemma_fields_of_fails(pieces, k, n - 1);
    }
}

/// The entities that the descriptions give, in order, or the message of
/// the first description with something wrong, which names the description.
pub open spec fn entities_of(inputs: Seq<Seq<char>>, k: int) -> Result<
    Seq<EntitySpecView>,
    Seq<char>,
>
    decreases k,
{
    if k <= 0 {
        Ok(Seq::empty())
    } else {
        match entities_of(inputs, k - 1) {
            Err(message) => Err(message),
            Ok(specs) => match entity_spec_of(inputs[k - 1]) {
                Ok(spec) => Ok(specs.push(spec)),
                Err(message) => Err(
                    "invalid --entity '"@ + inputs[k - 1] + "': "@ + message,
                ),
            },
        }
    }
}

/// The entities of a list, as plain values.
pub open spec fn spec_views(specs: Seq<EntitySpec>) -> Seq<EntitySpecView> {
    Seq::new(specs.len(), |i: int| specs[i]@)
}

/// Reads a list of entity descriptions; see [`entities_of`].
pub fn parse_entities(entities: &Vec<String>) -> (r: Result<Vec<EntitySpec>, String>)
    ensures
        match r {
            Ok(specs) => entities_of(string_views(entities@), entities@.len() as int)
                == Ok::<Seq<EntitySpecView>, Seq<char>>(spec_views(specs@)),
            Err(e) => entities_of(string_views(entities@), entities@.len() as int)
                == Err::<Seq<EntitySpecView>, Seq<char>>(e@),
        },
{
    let ghost inputs = string_views(entities@);
    let mut specs: Vec<EntitySpec> = Vec::new();
    let mut k: usize = 0;
    assert(spec_views(specs@) =~= Seq::<EntitySpecView>::empty());
    while k < entities.len()
        invariant
            k <= entities@.len(),
            inputs == string_views(entities@),
            entities_of(inputs, k as int) == Ok::<Seq<EntitySpecView>, Seq<char>>(
                spec_views(specs@),
            ),
        decreases entities@.len() - k,
    {
        assert(inputs[k as int] == entities@[k as int]@);
        let ghost before = spec_views(specs@);
        match parse_entity_spec(entities[k].as_str()) {
            Ok(spec) => {
                specs.push(spec);
                assert(spec_views(specs@) =~= before.push(spec@));
            },
            Err(message) => {
                let mut text = chars_of("invalid --entity '");
                extend_chars(&mut text, &chars_of(entities[k].as_str()));
                extend_chars(&mut text, &chars_of("': "));
                extend_chars(&mut text, &chars_of(message.as_str()));
                proof {
                    lemma_entities_of_fails(inputs, k + 1, entities@.len() as int);
                }
                return Err(string_of(&text));
            },
        }
        k += 1;
    }
    Ok(specs)
}

/// Once a description has failed, the failure stays whatever follows.
pub proof fn lemma_entities_of_fails(inputs: Seq<Seq<char>>, k: int, n: int)
    requires
        0 <= k <= n,
        entities_of(inputs, k) is Err,
    ensures
        entities_of(inputs, n) == entities_of(inputs, k),
    decreases n - k,
{
    if k < n {
        lemma_entities_of_fails(inputs, k, n - 1);
    }
}

} // verus!
