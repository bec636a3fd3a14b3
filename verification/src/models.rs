//! The list of models that the service offers.
use crate::error::AiPassError;
use crate::json::{
    item_views, json_document, parse_json, values_are_taken_for_what_they_are, Json, JsonView,
};
use crate::limits::{MAX_MODELS, MAX_MODEL_ID_BYTES};
use crate::text::{
    bounded, bounds_count_bytes, contains_str, control, is_bounded, is_control, str_eq, texts, to_chars,
};
use crate::transfer::{is_success, success};
use vstd::prelude::*;
use vstd::utf8::*;

verus! {

/// The identifier of a model can be used: it is bounded and holds no control character.
pub open spec fn valid_model_id(id: Seq<char>) -> bool {
    bounded(id, MAX_MODEL_ID_BYTES) && forall|i: int|
        0 <= i < id.len() ==> !control(#[trigger] id[i])
}

/// The identifier that an entry of the list gives. In the standard envelope an entry is a complete
/// model object; in the older form it is the identifier itself.
pub open spec fn entry_id(envelope: bool, entry: JsonView) -> Option<Seq<char>> {
    if !envelope {
        entry.text()
    } else if entry.text_at("object"@) == Some("model"@) && entry.unsigned_at("created"@) is Some
        && (entry.text_at("owned_by"@) matches Some(owner) && owner.len() > 0) {
        entry.text_at("id"@)
    } else {
        None
    }
}

/// The identifiers that the entries give, one for each, or what is wrong with the first bad entry.
pub open spec fn listed_ids(envelope: bool, entries: Seq<JsonView>) -> Result<
    Seq<Seq<char>>,
    AiPassError,
>
    decreases entries.len(),
{
    if entries.len() == 0 {
        Ok(seq![])
    } else {
        match listed_ids(envelope, entries.drop_last()) {
            Err(error) => Err(error),
            Ok(before) => match entry_id(envelope, entries.last()) {
                None => Err(AiPassError::ModelEntryInvalid),
                Some(id) => if valid_model_id(id) {
                    Ok(before.push(id))
                } else {
                    Err(AiPassError::ModelIdInvalid)
                },
            },
        }
    }
}

/// The first occurrences in a list, in order.
pub open spec fn distinct(list: Seq<Seq<char>>) -> Seq<Seq<char>>
    decreases list.len(),
{
    if list.len() == 0 {
        seq![]
    } else {
        let before = distinct(list.drop_last());
        if before.contains(list.last()) {
            before
        } else {
            before.push(list.last())
        }
    }
}

/// The entries of a list of models, and whether they stand in the standard envelope.
pub open spec fn model_entries(value: JsonView) -> Option<(bool, Seq<JsonView>)> {
    match value {
        JsonView::Array(entries) => Some((false, entries)),
        JsonView::Object(_) => if value.text_at("object"@) == Some("list"@) {
            match value.items_at("data"@) {
                Some(entries) => Some((true, entries)),
                None => None,
            }
        } else {
            None
        },
        _ => None,
    }
}

/// What becomes of a list of models.
pub open spec fn models_of(value: JsonView) -> Result<Seq<Seq<char>>, AiPassError> {
    match model_entries(value) {
        None => Err(AiPassError::ModelListInvalid),
        Some((envelope, entries)) => if entries.len() > MAX_MODELS {
            Err(AiPassError::TooManyModels)
        } else {
            match listed_ids(envelope, entries) {
                Err(error) => Err(error),
                Ok(ids) => if ids.len() == 0 {
                    Err(AiPassError::NoModels)
                } else {
                    Ok(distinct(ids))
                },
            }
        },
    }
}

/// A list of strings as mathematics, or the failure.
pub open spec fn text_list(r: Result<Vec<String>, AiPassError>) -> Result<
    Seq<Seq<char>>,
    AiPassError,
> {
    match r {
        Ok(list) => Ok(texts(list@)),
        Err(error) => Err(error),
    }
}

fn is_text(text: Option<&str>, expected: &str) -> (r: bool)
    ensures
        r == (text matches Some(text) && text@ == expected@),
{
    match text {
        Some(text) => str_eq(text, expected),
        None => false,
    }
}

/// Whether the identifier of a model can be used.
pub fn is_valid_model_id(id: &str) -> (r: bool)
    ensures
        r == valid_model_id(id@),
{
    if !is_bounded(id, MAX_MODEL_ID_BYTES) {
        return false;
    }
    let chars = to_chars(id);
    let mut i: usize = 0;
    while i < chars.len()
        invariant
            i <= chars.len(),
            chars@ == id@,
            forall|j: int| 0 <= j < i ==> !control(#[trigger] id@[j]),
        decreases chars.len() - i,
    {
        if is_control(chars[i]) {
            assert(control(id@[i as int]));
            return false;
        }
        i = i + 1;
    }
    true
}

fn get_entry_id<'a>(envelope: bool, entry: &'a Json) -> (r: Option<&'a str>)
    ensures
        r is Some <==> entry_id(envelope, entry@) is Some,
        r matches Some(id) ==> id@ == entry_id(envelope, entry@)->0,
{
    if !envelope {
        return entry.as_str();
    }
    let has_owner = match entry.str_at("owned_by") {
        Some(owner) => !owner.is_empty(),
        None => false,
    };
    if is_text(entry.str_at("object"), "model") && entry.u64_at("created").is_some() && has_owner {
        entry.str_at("id")
    } else {
        None
    }
}

/// The identifiers of a list of models: each once, in the order of the list.
pub fn parse_model_ids(value: &Json) -> (r: Result<Vec<String>, AiPassError>)
    ensures
        text_list(r) == models_of(value@),
{
    broadcast use crate::json::view_of_parts;

    let (envelope, entries) = match value {
        Json::Array(entries) => (false, entries),
        Json::Object(_) => {
            if !is_text(value.str_at("object"), "list") {
                return Err(AiPassError::ModelListInvalid);
            }
            match value.array_at("data") {
                Some(entries) => (true, entries),
                None => {
                    return Err(AiPassError::ModelListInvalid);
                },
            }
        },
        _ => {
            return Err(AiPassError::ModelListInvalid);
        },
    };
    let ghost views = item_views(entries@);
    assert(model_entries(value@) == Some((envelope, views)));
    if entries.len() > MAX_MODELS {
        return Err(AiPassError::TooManyModels);
    }
    let mut models: Vec<String> = Vec::new();
    let mut i: usize = 0;
    assert(views.take(0) =~= seq![]);
    while i < entries.len()
        invariant
            i <= entries.len() <= MAX_MODELS,
            views == item_views(entries@),
            model_entries(value@) == Some((envelope, views)),
            listed_ids(envelope, views.take(i as int)) is Ok,
            texts(models@) == distinct(listed_ids(envelope, views.take(i as int))->Ok_0),
            listed_ids(envelope, views.take(i as int))->Ok_0.len() == i,
            models@.len() == 0 ==> i == 0,
        decreases entries.len() - i,
    {
        let ghost now = views.take(i + 1);
        assert(now.drop_last() =~= views.take(i as int));
        assert(now.last() == entries@[i as int]@);
        let id = match get_entry_id(envelope, &entries[i]) {
            Some(id) => id,
            None => {
                proof {
                    first_failure_decides(envelope, views, i + 1);
                }
                return Err(AiPassError::ModelEntryInvalid);
            },
        };
        if !is_valid_model_id(id) {
            proof {
                first_failure_decides(envelope, views, i + 1);
            }
            return Err(AiPassError::ModelIdInvalid);
        }
        let ghost before = listed_ids(envelope, views.take(i as int))->Ok_0;
        assert(before.push(id@).drop_last() =~= before);
        if !contains_str(&models, id) {
            let ghost earlier = models@;
            models.push(id.to_owned());
            assert(texts(models@) =~= texts(earlier).push(id@));
        }
        i = i + 1;
    }
    assert(views.take(i as int) =~= views);
    if models.len() == 0 {
        return Err(AiPassError::NoModels);
    }
    Ok(models)
}

/// What is wrong with the first bad entry is what is wrong with the list.
proof fn first_failure_decides(envelope: bool, entries: Seq<JsonView>, upto: int)
    requires
        0 <= upto <= entries.len(),
        listed_ids(envelope, entries.take(upto)) is Err,
    ensures
        listed_ids(envelope, entries) == listed_ids(envelope, entries.take(upto)),
    decreases entries.len() - upto,
{
    if upto == entries.len() {
        assert(entries.take(upto) =~= entries);
    } else {
        assert(entries.take(upto + 1).drop_last() =~= entries.take(upto));
        first_failure_decides(envelope, entries, upto + 1);
    }
}

/// What becomes of the body of a reply with models.
pub open spec fn models_of_body(body: Seq<u8>) -> Result<Seq<Seq<char>>, AiPassError> {
    match json_document(body) {
        Some(value) => models_of(value),
        None => Err(AiPassError::ModelListInvalid),
    }
}

/// The identifiers of the models in the body of a reply.
pub fn parse_models_body(body: &[u8]) -> (r: Result<Vec<String>, AiPassError>)
    ensures
        text_list(r) == models_of_body(body@),
{
    match parse_json(body) {
        Ok(value) => parse_model_ids(&value),
        Err(_) => Err(AiPassError::ModelListInvalid),
    }
}

/// The identifiers of the models in a reply, if the request was granted.
pub fn models_reply(status: u16, body: &[u8]) -> (r: Result<Vec<String>, AiPassError>)
    ensures
        text_list(r) == (if success(status) {
            models_of_body(body@)
        } else {
            Err(AiPassError::ModelsRejected)
        }),
{
    if !is_success(status) {
        return Err(AiPassError::ModelsRejected);
    }
    parse_models_body(body)
}

proof fn distinct_has_no_duplicates(list: Seq<Seq<char>>)
    ensures
        distinct(list).no_duplicates(),
        distinct(list).len() <= list.len(),
        list.len() > 0 ==> distinct(list).len() > 0,
        forall|id: Seq<char>| distinct(list).contains(id) <==> list.contains(id),
    decreases list.len(),
{
    if list.len() > 0 {
        let before = list.drop_last();
        distinct_has_no_duplicates(before);
        let kept = distinct(before);
        assert forall|id: Seq<char>| distinct(list).contains(id) <==> list.contains(id) by {
            if list.contains(id) {
                let i = choose|i: int| 0 <= i < list.len() && list[i] == id;
                if i < before.len() {
                    assert(before[i] == id);
                    assert(before.contains(id));
                    assert(kept.contains(id));
                }
                if !kept.contains(list.last()) {
                    if i == before.len() {
                        assert(kept.push(list.last())[kept.len() as int] == id);
                    } else {
                        let k = choose|k: int| 0 <= k < kept.len() && kept[k] == id;
                        assert(kept.push(list.last())[k] == id);
                    }
                }
            }
            if distinct(list).contains(id) {
                let k = choose|k: int| 0 <= k < distinct(list).len() && distinct(list)[k] == id;
                if k < kept.len() {
                    assert(kept.contains(id));
                    assert(before.contains(id));
                    let i = choose|i: int| 0 <= i < before.len() && before[i] == id;
                    assert(list[i] == id);
                } else {
                    assert(list[list.len() - 1] == id);
                }
            }
        }
    }
}

proof fn listed_ids_are_valid(envelope: bool, entries: Seq<JsonView>)
    ensures
        listed_ids(envelope, entries) matches Ok(ids) ==> ids.len() == entries.len() && forall|i: int|
            0 <= i < ids.len() ==> valid_model_id(#[trigger] ids[i]) && entry_id(
                envelope,
                entries[i],
            ) == Some(ids[i]),
    decreases entries.len(),
{
    if entries.len() > 0 {
        listed_ids_are_valid(envelope, entries.drop_last());
        if let Ok(ids) = listed_ids(envelope, entries) {
            let before = listed_ids(envelope, entries.drop_last())->Ok_0;
            assert forall|i: int| 0 <= i < ids.len() implies valid_model_id(#[trigger] ids[i])
                && entry_id(envelope, entries[i]) == Some(ids[i]) by {
                if i < before.len() {
                    assert(ids[i] == before[i]);
                    assert(entries.drop_last()[i] == entries[i]);
                }
            }
        }
    }
}

/// A list that is accepted names at least one model and at most the permitted number, each once,
/// and every name can be used and is that of an entry.
pub proof fn accepted_models_are_bounded(value: JsonView)
    ensures
        models_of(value) matches Ok(models) ==> {
            &&& model_entries(value) matches Some((envelope, entries))
            &&& 0 < models.len() <= MAX_MODELS
            &&& models.no_duplicates()
            &&& forall|i: int|
                0 <= i < models.len() ==> valid_model_id(#[trigger] models[i]) && exists|k: int|
                    0 <= k < entries.len() && entry_id(envelope, #[trigger] entries[k]) == Some(
                        models[i],
                    )
        },
{
    if let Ok(models) = models_of(value) {
        let (envelope, entries) = model_entries(value)->0;
        let ids = listed_ids(envelope, entries)->Ok_0;
        listed_ids_are_valid(envelope, entries);
        distinct_has_no_duplicates(ids);
        assert forall|i: int| 0 <= i < models.len() implies valid_model_id(#[trigger] models[i])
            && exists|k: int|
            0 <= k < entries.len() && entry_id(envelope, #[trigger] entries[k]) == Some(
                models[i],
            ) by {
            assert(models.contains(models[i]));
            assert(ids.contains(models[i]));
            let k = choose|k: int| 0 <= k < ids.len() && ids[k] == models[i];
            assert(entry_id(envelope, entries[k]) == Some(models[i]));
        }
    }
}

/// An identifier of 1 to 256 bytes without a character of the category `Cc`.
pub open spec fn ordinary_id(id: Seq<char>) -> bool {
    &&& 1 <= encode_utf8(id).len() <= 256
    &&& forall|i: int|
        0 <= i < id.len() ==> !(#[trigger] id[i] <= '\u{1f}') && !('\u{7f}' <= id[i] <= '\u{9f}')
}

/// Every ordinary identifier can be used, whatever characters it holds, and no other one.
pub proof fn every_ordinary_id_is_valid(id: Seq<char>)
    ensures
        valid_model_id(id) <==> ordinary_id(id),
{
    bounds_count_bytes(id, MAX_MODEL_ID_BYTES);
    if valid_model_id(id) {
        assert forall|i: int| 0 <= i < id.len() implies !(#[trigger] id[i] <= '\u{1f}') && !(
        '\u{7f}' <= id[i] <= '\u{9f}') by {
            assert(!control(id[i]));
        }
    }
    if ordinary_id(id) {
        assert forall|i: int| 0 <= i < id.len() implies !control(#[trigger] id[i]) by {
            assert(!(id[i] <= '\u{1f}'));
        }
    }
}

/// The entry gives the identifier: in the older form it is its text, in the envelope it is an
/// object of the kind `model` with a time of creation, an owner and this identifier.
pub open spec fn gives_id(envelope: bool, entry: JsonView, id: Seq<char>) -> bool {
    if envelope {
        &&& entry.get("object"@) == Some(JsonView::Text("model"@))
        &&& entry.get("created"@) matches Some(JsonView::Number(Some(_)))
        &&& entry.get("owned_by"@) matches Some(JsonView::Text(owner)) && owner.len() > 0
        &&& entry.get("id"@) == Some(JsonView::Text(id))
    } else {
        entry == JsonView::Text(id)
    }
}

/// The value is a list with these entries: an array, or an object of the kind `list` whose data
/// they are.
pub open spec fn is_list(value: JsonView, envelope: bool, entries: Seq<JsonView>) -> bool {
    if envelope {
        value.get("object"@) == Some(JsonView::Text("list"@)) && value.get("data"@) == Some(
            JsonView::Array(entries),
        )
    } else {
        value == JsonView::Array(entries)
    }
}

proof fn entry_gives_id(envelope: bool, entry: JsonView, id: Seq<char>)
    ensures
        entry_id(envelope, entry) == Some(id) <==> gives_id(envelope, entry, id),
{
    values_are_taken_for_what_they_are(entry, "object"@);
    values_are_taken_for_what_they_are(entry, "created"@);
    values_are_taken_for_what_they_are(entry, "owned_by"@);
    values_are_taken_for_what_they_are(entry, "id"@);
    if gives_id(envelope, entry, id) && envelope {
        let n = entry.get("created"@)->0->Number_0->0;
        assert(entry.unsigned_at("created"@) == Some(n));
        let owner = entry.get("owned_by"@)->0->Text_0;
        assert(entry.text_at("owned_by"@) == Some(owner));
    }
}

proof fn list_has_entries(value: JsonView, envelope: bool, entries: Seq<JsonView>)
    ensures
        model_entries(value) == Some((envelope, entries)) <==> is_list(value, envelope, entries),
{
    values_are_taken_for_what_they_are(value, "object"@);
    values_are_taken_for_what_they_are(value, "data"@);
}

proof fn good_entries_are_listed(envelope: bool, entries: Seq<JsonView>, ids: Seq<Seq<char>>)
    requires
        ids.len() == entries.len(),
        forall|i: int|
            0 <= i < entries.len() ==> gives_id(envelope, #[trigger] entries[i], ids[i])
                && ordinary_id(ids[i]),
    ensures
        listed_ids(envelope, entries) == Ok::<Seq<Seq<char>>, AiPassError>(ids),
    decreases entries.len(),
{
    if entries.len() == 0 {
        assert(ids =~= seq![]);
    } else {
        let (before, earlier) = (entries.drop_last(), ids.drop_last());
        assert forall|i: int| 0 <= i < before.len() implies gives_id(
            envelope,
            #[trigger] before[i],
            earlier[i],
        ) && ordinary_id(earlier[i]) by {
            assert(before[i] == entries[i]);
        }
        good_entries_are_listed(envelope, before, earlier);
        let last = entries.len() - 1;
        assert(gives_id(envelope, entries[last], ids[last]));
        entry_gives_id(envelope, entries[last], ids[last]);
        every_ordinary_id_is_valid(ids[last]);
        assert(earlier.push(ids[last]) =~= ids);
    }
}

/// The list holds the items of the other one, each once, in the order in which they first occur.
pub open spec fn first_occurrences(all: Seq<Seq<char>>, kept: Seq<Seq<char>>) -> bool {
    &&& kept.no_duplicates()
    &&& forall|id: Seq<char>| kept.contains(id) <==> all.contains(id)
    &&& forall|a: int, b: int|
        0 <= a < b < kept.len() ==> occurs_before(all, #[trigger] kept[a], #[trigger] kept[b])
}

/// `first` occurs in the list at a place up to which `second` does not.
pub open spec fn occurs_before(all: Seq<Seq<char>>, first: Seq<char>, second: Seq<char>) -> bool {
    exists|k: int|
        0 <= k < all.len() && #[trigger] all[k] == first && forall|l: int|
            0 <= l <= k ==> all[l] != second
}

proof fn distinct_keeps_first_occurrences(list: Seq<Seq<char>>)
    ensures
        first_occurrences(list, distinct(list)),
    decreases list.len(),
{
    distinct_has_no_duplicates(list);
    if list.len() > 0 {
        let before = list.drop_last();
        let kept = distinct(before);
        let all = distinct(list);
        distinct_keeps_first_occurrences(before);
        distinct_has_no_duplicates(before);
        assert forall|a: int, b: int| 0 <= a < b < all.len() implies occurs_before(
            list,
            #[trigger] all[a],
            #[trigger] all[b],
        ) by {
            assert(all[a] == kept[a]);
            if b < kept.len() {
                assert(all[b] == kept[b]);
                assert(occurs_before(before, kept[a], kept[b]));
                let k = choose|k: int|
                    0 <= k < before.len() && #[trigger] before[k] == kept[a] && forall|l: int|
                        0 <= l <= k ==> before[l] != kept[b];
                assert(list[k] == kept[a]);
                assert forall|l: int| 0 <= l <= k implies list[l] != kept[b] by {
                    assert(before[l] == list[l]);
                }
            } else {
                assert(all[b] == list.last());
                assert(kept.contains(kept[a]));
                assert(before.contains(kept[a]));
                let k = choose|k: int| 0 <= k < before.len() && before[k] == kept[a];
                assert(list[k] == kept[a]);
                assert forall|l: int| 0 <= l <= k implies list[l] != list.last() by {
                    assert(before[l] == list[l]);
                    if list[l] == list.last() {
                        assert(before.contains(list.last()));
                        assert(kept.contains(list.last()));
                    }
                }
            }
        }
    }
}

/// A list of 1 to 500 good entries is accepted, and gives the first occurrences of their
/// identifiers, whatever else the entries and the envelope hold.
pub proof fn good_list_is_taken_whole(
    value: JsonView,
    envelope: bool,
    entries: Seq<JsonView>,
    ids: Seq<Seq<char>>,
)
    requires
        is_list(value, envelope, entries),
        1 <= entries.len() <= 500,
        ids.len() == entries.len(),
        forall|i: int|
            0 <= i < entries.len() ==> gives_id(envelope, #[trigger] entries[i], ids[i])
                && ordinary_id(ids[i]),
    ensures
        models_of(value) matches Ok(models) && first_occurrences(ids, models),
{
    list_has_entries(value, envelope, entries);
    good_entries_are_listed(envelope, entries, ids);
    distinct_keeps_first_occurrences(ids);
}

/// What is no list is refused, and so is a list that is too long or empty.
pub proof fn bad_list_is_refused_for_its_length(
    value: JsonView,
    envelope: bool,
    entries: Seq<JsonView>,
)
    ensures
        (forall|e: bool, list: Seq<JsonView>| !is_list(value, e, list)) ==> models_of(value) == Err::<
            Seq<Seq<char>>,
            AiPassError,
        >(AiPassError::ModelListInvalid),
        is_list(value, envelope, entries) && entries.len() > 500 ==> models_of(value) == Err::<
            Seq<Seq<char>>,
            AiPassError,
        >(AiPassError::TooManyModels),
        is_list(value, envelope, entries) && entries.len() == 0 ==> models_of(value) == Err::<
            Seq<Seq<char>>,
            AiPassError,
        >(AiPassError::NoModels),
{
    list_has_entries(value, envelope, entries);
    if let Some((e, list)) = model_entries(value) {
        list_has_entries(value, e, list);
    }
}

/// A list is refused for its first bad entry: because the entry gives no identifier, or because
/// the identifier that it gives is not ordinary.
pub proof fn bad_list_is_refused_for_its_entry(
    value: JsonView,
    envelope: bool,
    entries: Seq<JsonView>,
    ids: Seq<Seq<char>>,
    at: int,
    id: Seq<char>,
)
    requires
        is_list(value, envelope, entries),
        entries.len() <= 500,
        0 <= at < entries.len(),
        ids.len() == at,
        forall|i: int|
            0 <= i < at ==> gives_id(envelope, #[trigger] entries[i], ids[i]) && ordinary_id(ids[i]),
    ensures
        (forall|other: Seq<char>| !gives_id(envelope, entries[at], other)) ==> models_of(value)
            == Err::<Seq<Seq<char>>, AiPassError>(AiPassError::ModelEntryInvalid),
        gives_id(envelope, entries[at], id) && !ordinary_id(id) ==> models_of(value) == Err::<
            Seq<Seq<char>>,
            AiPassError,
        >(AiPassError::ModelIdInvalid),
{
    list_has_entries(value, envelope, entries);
    let good = entries.take(at);
    assert forall|i: int| 0 <= i < good.len() implies gives_id(
        envelope,
        #[trigger] good[i],
        ids[i],
    ) && ordinary_id(ids[i]) by {
        assert(good[i] == entries[i]);
    }
    good_entries_are_listed(envelope, good, ids);
    let upto = entries.take(at + 1);
    assert(upto.drop_last() =~= good);
    assert(upto.last() == entries[at]);
    entry_gives_id(envelope, entries[at], id);
    every_ordinary_id_is_valid(id);
    if let Some(other) = entry_id(envelope, entries[at]) {
        entry_gives_id(envelope, entries[at], other);
        if gives_id(envelope, entries[at], id) && !ordinary_id(id) {
            first_failure_decides(envelope, entries, at + 1);
        }
    } else {
        first_failure_decides(envelope, entries, at + 1);
    }
}

/// The body of a reply with models is judged by its document; a body that holds none is refused.
pub proof fn models_body_is_judged_by_its_document(body: Seq<u8>)
    ensures
        json_document(body) matches Some(value) ==> models_of_body(body) == models_of(value),
        json_document(body) is None ==> models_of_body(body) == Err::<Seq<Seq<char>>, AiPassError>(
            AiPassError::ModelListInvalid,
        ),
{
}

/// The view of a list of models keeps success and failure apart, and each as it is.
pub proof fn view_of_models_keeps_them(list: Vec<String>, error: AiPassError)
    ensures
        text_list(Ok(list)) == Ok::<Seq<Seq<char>>, AiPassError>(texts(list@)),
        text_list(Err(error)) == Err::<Seq<Seq<char>>, AiPassError>(error),
{
}

} // verus!
