//! Header fields: a list of name and value pairs that behaves as a map from
//! names to values.

use vstd::prelude::*;

verus! {

/// One header field.
#[derive(Debug, Clone)]
pub struct Header {
    pub name: String,
    pub value: String,
}

/// A header field as plain text.
pub struct HeaderModel {
    pub name: Seq<char>,
    pub value: Seq<char>,
}

impl View for Header {
    type V = HeaderModel;

    open spec fn view(&self) -> HeaderModel {
        HeaderModel { name: self.name@, value: self.value@ }
    }
}

/// The fields of a list of headers, in order.
pub open spec fn fields_of(v: Seq<Header>) -> Seq<HeaderModel> {
    Seq::new(v.len(), |i: int| v[i]@)
}

/// Some field of `h` has the name `name`.
pub open spec fn has_field(h: Seq<HeaderModel>, name: Seq<char>) -> bool {
    exists|i: int| 0 <= i < h.len() && #[trigger] h[i].name == name
}

/// `i` is the position of the first field of `h` named `name`.
pub open spec fn is_first_field(h: Seq<HeaderModel>, name: Seq<char>, i: int) -> bool {
    &&& 0 <= i < h.len()
    &&& h[i].name == name
    &&& forall|j: int| 0 <= j < i ==> (#[trigger] h[j]).name != name
}

/// Position of the first field of `h` named `name`, where there is one.
pub open spec fn field_index(h: Seq<HeaderModel>, name: Seq<char>) -> int {
    choose|i: int| is_first_field(h, name, i)
}

/// The value of the field named `name`, if there is one.
pub open spec fn field_value(h: Seq<HeaderModel>, name: Seq<char>) -> Option<Seq<char>> {
    if has_field(h, name) {
        Some(h[field_index(h, name)].value)
    } else {
        None
    }
}

/// The fields after `name` was set to `value`: the field of that name gets
/// the new value, or a new field goes to the end.
pub open spec fn with_field(h: Seq<HeaderModel>, name: Seq<char>, value: Seq<char>) -> Seq<
    HeaderModel,
> {
    if has_field(h, name) {
        h.update(field_index(h, name), HeaderModel { name, value })
    } else {
        h.push(HeaderModel { name, value })
    }
}

/// No name occurs twice in `h`.
pub open spec fn distinct_names(h: Seq<HeaderModel>) -> bool {
    forall|i: int, j: int| 0 <= i < j < h.len() ==> h[i].name != h[j].name
}

/// The first field of a name is the only position that qualifies as such.
pub proof fn lemma_first_field(h: Seq<HeaderModel>, name: Seq<char>, i: int)
    requires
        is_first_field(h, name, i),
    ensures
        has_field(h, name),
        field_index(h, name) == i,
{
    let j = field_index(h, name);
    assert(is_first_field(h, name, j));
    if j < i {
        assert(h[j].name != name);
    } else if i < j {
        assert(h[i].name != name);
    }
}

/// A name that occurs has a first field.
pub proof fn lemma_has_first_field(h: Seq<HeaderModel>, name: Seq<char>)
    requires
        has_field(h, name),
    ensures
        is_first_field(h, name, field_index(h, name)),
    decreases h.len(),
{
    let k = choose|i: int| 0 <= i < h.len() && #[trigger] h[i].name == name;
    if h[0].name == name {
        assert(is_first_field(h, name, 0));
    } else {
        let t = h.drop_first();
        assert(t[k - 1].name == name);
        lemma_has_first_field(t, name);
        let f = field_index(t, name);
        assert forall|j: int| 0 <= j < f + 1 implies (#[trigger] h[j]).name != name by {
            if j > 0 {
                assert(t[j - 1].name != name);
            }
        }
        assert(h[f + 1] == t[f]);
        assert(is_first_field(h, name, f + 1));
    }
}

/// Setting a field makes it the value of its name, leaves the values of all
/// other names as they were, and keeps names distinct.
pub proof fn law_with_field(h: Seq<HeaderModel>, name: Seq<char>, value: Seq<char>)
    ensures
        field_value(with_field(h, name, value), name) == Some(value),
        forall|other: Seq<char>|
            other != name ==> field_value(with_field(h, name, value), other) == field_value(
                h,
                other,
            ),
        distinct_names(h) ==> distinct_names(with_field(h, name, value)),
        has_field(h, name) ==> with_field(h, name, value).len() == h.len(),
        !has_field(h, name) ==> with_field(h, name, value).len() == h.len() + 1,
{
    let out = with_field(h, name, value);
    let pos = if has_field(h, name) {
        field_index(h, name)
    } else {
        h.len() as int
    };
    if has_field(h, name) {
        lemma_has_first_field(h, name);
    }
    assert(out.len() > pos && out[pos].name == name && out[pos].value == value);
    assert forall|j: int| 0 <= j < out.len() && j != pos implies (#[trigger] out[j]) == h[j] by {}
    assert forall|j: int| 0 <= j < pos implies (#[trigger] out[j]).name != name by {
        assert(out[j] == h[j]);
        if !has_field(h, name) {
            if h[j].name == name {
                assert(has_field(h, name));
            }
        }
    }
    assert(is_first_field(out, name, pos));
    lemma_first_field(out, name, pos);
    assert forall|other: Seq<char>| other != name implies field_value(out, other) == field_value(
        h,
        other,
    ) by {
        if has_field(h, other) {
            lemma_has_first_field(h, other);
            let f = field_index(h, other);
            assert(f != pos);
            assert(out[f] == h[f]);
            assert forall|j: int| 0 <= j < f implies (#[trigger] out[j]).name != other by {
                if j != pos {
                    assert(out[j] == h[j]);
                }
            }
            assert(is_first_field(out, other, f));
            lemma_first_field(out, other, f);
        } else {
            if has_field(out, other) {
                lemma_has_first_field(out, other);
                let f = field_index(out, other);
                assert(f != pos);
                assert(out[f] == h[f]);
                assert(h[f].name == other);
            }
        }
    }
    if distinct_names(h) {
        assert forall|a: int, b: int| 0 <= a < b < out.len() implies out[a].name
            != out[b].name by {
            if has_field(h, name) {
                assert(out[a].name == h[a].name && out[b].name == h[b].name);
            } else {
                if b == pos {
                    assert(out[a] == h[a]);
                    if h[a].name == name {
                        assert(has_field(h, name));
                    }
                } else {
                    assert(out[a] == h[a] && out[b] == h[b]);
                }
            }
        }
    }
}

/// Position of the first field named `name`, if there is one.
pub fn find_field(headers: &Vec<Header>, name: &String) -> (found: Option<usize>)
    ensures
        found.is_some() == has_field(fields_of(headers@), name@),
        found matches Some(i) ==> is_first_field(fields_of(headers@), name@, i as int) && i
            == field_index(fields_of(headers@), name@),
{
    let ghost h = fields_of(headers@);
    let mut i: usize = 0;
    while i < headers.len()
        invariant
            i <= headers.len(),
            h == fields_of(headers@),
            forall|j: int| 0 <= j < i ==> (#[trigger] h[j]).name != name@,
        decreases headers.len() - i,
    {
        if headers[i].name == *name {
            proof {
                assert(h[i as int].name == name@);
                lemma_first_field(h, name@, i as int);
            }
            return Some(i);
        }
        i += 1;
    }
    proof {
        if has_field(h, name@) {
            let j = choose|j: int| 0 <= j < h.len() && #[trigger] h[j].name == name@;
            assert(h[j].name != name@);
        }
    }
    None
}

/// The value of the field named `name`, if there is one.
pub fn lookup_field<'a>(headers: &'a Vec<Header>, name: &String) -> (found: Option<&'a String>)
    ensures
        match found {
            Some(v) => field_value(fields_of(headers@), name@) == Some(v@),
            None => field_value(fields_of(headers@), name@).is_none(),
        },
{
    match find_field(headers, name) {
        Some(i) => Some(&headers[i].value),
        None => None,
    }
}

/// Sets the field named `name` to `value`.
pub fn set_field(headers: &mut Vec<Header>, name: String, value: String)
    ensures
        fields_of(final(headers)@) == with_field(fields_of(old(headers)@), name@, value@),
{
    let ghost h = fields_of(headers@);
    match find_field(headers, &name) {
        Some(i) => {
            let _ = headers.remove(i);
            headers.insert(i, Header { name, value });
            assert(fields_of(headers@) =~= with_field(h, name@, value@));
        },
        None => {
            headers.push(Header { name, value });
            assert(fields_of(headers@) =~= with_field(h, name@, value@));
        },
    }
}

} // verus!
