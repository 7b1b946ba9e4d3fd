//! Pure declaration transformation for Runtime-controlled proposal previews and promotion.

use vstd::prelude::*;
use vstd::string::{StrSliceExecFns, StringExecFns};

use crate::error::{RuntimeHostError, RuntimeHostResult};
use crate::json::{
    all_wf, get_member, item_views, json_view, json_wf, lemma_items_wf, lemma_list_view,
    lemma_object_view, member_of, member_text, member_views, put_member, take_member, Json,
    JsonView,
};
use crate::json_value::{json_bytes, json_document, parse_json, write_json};
use crate::ordered_map::OrderedMap;
use crate::policy::catalog::{fatal, policy_fatal, policy_request, request};
use crate::policy::generation::{CatalogDocumentSource, CatalogGeneration, CatalogSources};
use crate::search::{first_position, lemma_first_position, lemma_no_position, lemma_position};
use crate::text::{decimal, same_text, signed_decimal, texts, utf8};

verus! {

#[derive(Debug, Clone, Copy, PartialEq, Eq, Structural)]
pub enum ProposalPatchOperation {
    Add,
    Replace,
    Remove,
}

#[derive(Debug, Clone, Copy, PartialEq, Eq, Structural)]
pub enum ProposalDocument {
    Tasks,
    Pools,
    Activity,
    Timeline,
}

/// A change of a document at a path, with the value as JSON text where one is
/// given.
#[derive(Debug)]
pub struct CatalogDeclarationPatch {
    pub document: ProposalDocument,
    pub path: String,
    pub operation: ProposalPatchOperation,
    pub value_json: Option<String>,
}

pub open spec fn patch_error(code: &'static str) -> RuntimeHostError {
    policy_request(code, "apply_proposal_patch")
}

/// A text cut at every slash.
pub open spec fn cut_at_slashes(path: Seq<char>) -> Seq<Seq<char>>
    decreases path.len(),
{
    if path.len() == 0 {
        seq![Seq::empty()]
    } else {
        let earlier = cut_at_slashes(path.drop_last());
        if path.last() == '/' {
            earlier.push(Seq::empty())
        } else {
            earlier.drop_last().push(earlier.last().push(path.last()))
        }
    }
}

/// A token of a path with its escapes resolved: `~0` stands for a tilde, `~1`
/// for a slash.
pub open spec fn unescaped(token: Seq<char>) -> Option<Seq<char>>
    decreases token.len(),
{
    if token.len() == 0 {
        Some(Seq::empty())
    } else if token[0] != '~' {
        match unescaped(token.skip(1)) {
            Some(rest) => Some(seq![token[0]] + rest),
            None => None,
        }
    } else if token.len() >= 2 && (token[1] == '0' || token[1] == '1') {
        match unescaped(token.skip(2)) {
            Some(rest) => Some(
                seq![
                    if token[1] == '0' {
                        '~'
                    } else {
                        '/'
                    },
                ] + rest,
            ),
            None => None,
        }
    } else {
        None
    }
}

pub open spec fn token_readable(token: Seq<char>) -> bool {
    token.len() > 0 && unescaped(token) is Some
}

/// The tokens of a path: what stands after the first slash, cut at the
/// slashes.
pub open spec fn path_tokens(path: Seq<char>) -> Seq<Seq<char>> {
    cut_at_slashes(path).skip(1)
}

/// A path that names something.
pub open spec fn path_readable(path: Seq<char>) -> bool {
    forall|i: int|
        0 <= i < path_tokens(path).len() ==> token_readable(#[trigger] path_tokens(path)[i])
}

/// The names along a path.
pub open spec fn path_names(path: Seq<char>) -> Seq<Seq<char>> {
    path_tokens(path).map_values(|token: Seq<char>| unescaped(token)->0)
}

proof fn lemma_cut_is_not_empty(path: Seq<char>)
    ensures
        cut_at_slashes(path).len() > 0,
    decreases path.len(),
{
    if path.len() > 0 {
        lemma_cut_is_not_empty(path.drop_last());
    }
}

fn decode_token(token: &str) -> (decoded: Option<String>)
    ensures
        match unescaped(token@) {
            Some(text) => decoded is Some && (decoded->0)@ == text,
            None => decoded is None,
        },
{
    let length: usize = token.unicode_len();
    let mut text = String::new();
    let mut index: usize = 0;
    assert(token@.skip(0) =~= token@);
    while index < length
        invariant
            index <= length == token@.len(),
            match unescaped(token@.skip(index as int)) {
                Some(rest) => unescaped(token@) == Some(text@ + rest),
                None => unescaped(token@) is None,
            },
        decreases length - index,
    {
        let ghost rest = token@.skip(index as int);
        let ghost before = text@;
        assert(rest[0] == token@[index as int]);
        if token.get_char(index) != '~' {
            text.append(token.substring_char(index, index + 1));
            proof {
                assert(rest.skip(1) =~= token@.skip(index + 1));
                assert(token@.subrange(index as int, index + 1) =~= seq![rest[0]]);
                if unescaped(rest.skip(1)) is Some {
                    assert(before + (seq![rest[0]] + unescaped(rest.skip(1))->0) =~= text@
                        + unescaped(rest.skip(1))->0);
                }
            }
            index += 1;
        } else {
            if index + 1 >= length {
                return None;
            }
            assert(rest[1] == token@[index + 1]);
            let escape = token.get_char(index + 1);
            if escape == '0' {
                text.append("~");
            } else if escape == '1' {
                text.append("/");
            } else {
                return None;
            }
            proof {
                reveal_strlit("~");
                reveal_strlit("/");
                let resolved = if rest[1] == '0' {
                    '~'
                } else {
                    '/'
                };
                assert(text@ =~= before + seq![resolved]);
                assert(rest.skip(2) =~= token@.skip(index + 2));
                if unescaped(rest.skip(2)) is Some {
                    assert(before + (seq![resolved] + unescaped(rest.skip(2))->0) =~= text@
                        + unescaped(rest.skip(2))->0);
                }
            }
            index += 2;
        }
    }
    assert(token@.skip(index as int) =~= Seq::empty());
    assert(text@ + Seq::<char>::empty() =~= text@);
    Some(text)
}

/// The tokens of a path before they are decoded.
fn cut_path(path: &str) -> (tokens: Vec<String>)
    ensures
        texts(tokens@) == cut_at_slashes(path@),
{
    let length: usize = path.unicode_len();
    let mut tokens: Vec<String> = Vec::new();
    let mut current = String::new();
    let mut index: usize = 0;
    proof {
        assert(path@.take(0) =~= Seq::empty());
        assert(texts(tokens@).push(current@) =~= seq![Seq::<char>::empty()]);
    }
    while index < length
        invariant
            index <= length == path@.len(),
            texts(tokens@).push(current@) == cut_at_slashes(path@.take(index as int)),
        decreases length - index,
    {
        let ghost taken = path@.take(index + 1);
        let ghost earlier = texts(tokens@).push(current@);
        let ghost word = current@;
        proof {
            assert(taken.drop_last() =~= path@.take(index as int));
            assert(taken.last() == path@[index as int]);
        }
        if path.get_char(index) == '/' {
            let ghost before = tokens@;
            tokens.push(current);
            current = String::new();
            proof {
                assert(texts(tokens@) =~= texts(before).push(word));
                assert(texts(tokens@).push(current@) =~= earlier.push(Seq::empty()));
            }
        } else {
            current.append(path.substring_char(index, index + 1));
            proof {
                assert(path@.subrange(index as int, index + 1) =~= seq![path@[index as int]]);
                assert(current@ =~= word.push(path@[index as int]));
                assert(earlier.drop_last() =~= texts(tokens@));
                assert(earlier.last() == word);
            }
        }
        index += 1;
    }
    proof {
        assert(path@.take(index as int) =~= path@);
    }
    let ghost before = tokens@;
    tokens.push(current);
    assert(texts(tokens@) =~= texts(before).push(current@));
    tokens
}

/// The names along a path.
pub fn decode_pointer(path: &str) -> (result: RuntimeHostResult<Vec<String>>)
    ensures
        if path_readable(path@) {
            result matches Ok(names) && texts(names@) == path_names(path@)
        } else {
            result matches Err(error) && error == patch_error("proposal_patch_path_invalid")
        },
{
    let tokens = cut_path(path);
    let ghost all = path_tokens(path@);
    proof {
        lemma_cut_is_not_empty(path@);
    }
    let mut names: Vec<String> = Vec::new();
    let mut index: usize = 1;
    while index < tokens.len()
        invariant
            1 <= index <= tokens.len(),
            texts(tokens@) == cut_at_slashes(path@),
            all == path_tokens(path@),
            all.len() == tokens.len() - 1,
            names@.len() == index - 1,
            forall|i: int|
                0 <= i < index - 1 ==> token_readable(#[trigger] all[i]) && names@[i]@ == unescaped(
                    all[i],
                )->0,
        decreases tokens.len() - index,
    {
        assert(all[index - 1] == tokens@[index as int]@) by {
            assert(texts(tokens@)[index as int] == tokens@[index as int]@);
        }
        let decoded = if tokens[index].as_str().unicode_len() == 0 {
            None
        } else {
            decode_token(tokens[index].as_str())
        };
        match decoded {
            Some(name) => {
                names.push(name);
            },
            None => {
                assert(!token_readable(all[index - 1]));
                return Err(request("proposal_patch_path_invalid", "apply_proposal_patch"));
            },
        }
        index += 1;
    }
    assert(texts(names@) =~= path_names(path@));
    Ok(names)
}

pub open spec fn is_digit_char(character: char) -> bool {
    '0' <= character <= '9'
}

/// The number that digits write.
pub open spec fn digits_value(digits: Seq<char>) -> nat
    decreases digits.len(),
{
    if digits.len() == 0 {
        0
    } else {
        digits_value(digits.drop_last()) * 10 + (digits.last() as u32 - '0' as u32) as nat
    }
}

pub open spec fn all_digits(digits: Seq<char>) -> bool {
    digits.len() > 0 && forall|i: int|
        0 <= i < digits.len() ==> is_digit_char(#[trigger] digits[i])
}

/// The digits of an index, which may follow a plus sign.
pub open spec fn index_digits(token: Seq<char>) -> Seq<char> {
    if token.len() > 0 && token[0] == '+' {
        token.skip(1)
    } else {
        token
    }
}

/// The place in a list that a token names. Nothing but a zero alone starts
/// with a zero.
pub open spec fn index_named(token: Seq<char>) -> Option<nat> {
    if token.len() == 0 || (token.len() > 1 && token[0] == '0') || !all_digits(
        index_digits(token),
    ) || digits_value(index_digits(token)) > usize::MAX {
        None
    } else {
        Some(digits_value(index_digits(token)))
    }
}

/// A value that fits, or nothing where it does not.
pub open spec fn fits(value: nat) -> Option<usize> {
    if value <= usize::MAX {
        Some(value as usize)
    } else {
        None
    }
}

fn with_digit(value: Option<usize>, digit: usize, Ghost(exact): Ghost<nat>) -> (next: Option<usize>)
    requires
        value == fits(exact),
        digit <= 9,
    ensures
        next == fits((exact * 10 + digit) as nat),
{
    match value {
        Some(value) => match value.checked_mul(10) {
            Some(shifted) => shifted.checked_add(digit),
            None => None,
        },
        None => None,
    }
}

proof fn lemma_next_digit(digits: Seq<char>, count: int)
    requires
        0 <= count < digits.len(),
    ensures
        digits_value(digits.take(count + 1)) == digits_value(digits.take(count)) * 10 + (
        digits[count] as u32 - '0' as u32) as nat,
{
    assert(digits.take(count + 1).drop_last() =~= digits.take(count));
}

pub fn parse_array_index(token: &str) -> (result: RuntimeHostResult<usize>)
    ensures
        match index_named(token@) {
            Some(index) => result == Ok::<usize, RuntimeHostError>(index as usize),
            None => result == Err::<usize, _>(patch_error("proposal_patch_index_invalid")),
        },
{
    let length: usize = token.unicode_len();
    if length == 0 || (length > 1 && token.get_char(0) == '0') {
        return Err(request("proposal_patch_index_invalid", "apply_proposal_patch"));
    }
    let start: usize = if token.get_char(0) == '+' {
        1
    } else {
        0
    };
    let ghost digits = index_digits(token@);
    assert(digits =~= token@.skip(start as int));
    if start == length {
        assert(digits.len() == 0);
        return Err(request("proposal_patch_index_invalid", "apply_proposal_patch"));
    }
    let mut value: Option<usize> = Some(0);
    let mut index: usize = start;
    assert(digits.take(0) =~= Seq::empty());
    while index < length
        invariant
            start <= index <= length == token@.len(),
            digits == token@.skip(start as int),
            digits == index_digits(token@),
            digits.len() == length - start,
            length > 0,
            !(length > 1 && token@[0] == '0'),
            forall|i: int| 0 <= i < index - start ==> is_digit_char(#[trigger] digits[i]),
            value == fits(digits_value(digits.take(index - start))),
        decreases length - index,
    {
        let character = token.get_char(index);
        assert(digits[index - start] == character);
        if !('0' <= character && character <= '9') {
            assert(!is_digit_char(digits[index - start]));
            return Err(request("proposal_patch_index_invalid", "apply_proposal_patch"));
        }
        let digit: usize = (character as u32 - '0' as u32) as usize;
        proof {
            lemma_next_digit(digits, index - start);
        }
        value = with_digit(value, digit, Ghost(digits_value(digits.take(index - start))));
        index += 1;
    }
    assert(digits.take(length - start) =~= digits);
    match value {
        Some(value) => Ok(value),
        None => Err(request("proposal_patch_index_invalid", "apply_proposal_patch")),
    }
}

/// The value of a patch: given and decoded, given but not decodable, or not
/// given.
pub open spec fn value_view(value: Option<Option<Json>>) -> Option<Option<JsonView>> {
    match value {
        Some(Some(json)) => Some(Some(json_view(json))),
        Some(None) => Some(None),
        None => None,
    }
}

/// An object after a patch of one of its members.
pub open spec fn object_patched(
    members: Map<Seq<char>, JsonView>,
    key: Seq<char>,
    operation: ProposalPatchOperation,
    value: Option<JsonView>,
) -> Result<JsonView, RuntimeHostError> {
    let known = members.contains_key(key);
    if known == (operation == ProposalPatchOperation::Add) {
        Err(patch_error("proposal_patch_target_conflict"))
    } else if operation == ProposalPatchOperation::Remove {
        Ok(JsonView::Object(members.remove(key)))
    } else if value is None {
        Err(patch_error("proposal_patch_value_missing"))
    } else {
        Ok(JsonView::Object(members.insert(key, value->0)))
    }
}

/// A list after a patch of one of its items. A hyphen names the place after
/// the last item.
pub open spec fn list_patched(
    items: Seq<JsonView>,
    token: Seq<char>,
    operation: ProposalPatchOperation,
    value: Option<JsonView>,
) -> Result<JsonView, RuntimeHostError> {
    let adds = operation == ProposalPatchOperation::Add;
    let place = if adds && token == "-"@ {
        Some(items.len())
    } else {
        index_named(token)
    };
    if place is None {
        Err(patch_error("proposal_patch_index_invalid"))
    } else if place->0 > items.len() || (!adds && place->0 == items.len()) {
        Err(patch_error("proposal_patch_target_conflict"))
    } else if operation == ProposalPatchOperation::Remove {
        Ok(JsonView::List(items.remove(place->0 as int)))
    } else if value is None {
        Err(patch_error("proposal_patch_value_missing"))
    } else if adds {
        Ok(JsonView::List(items.insert(place->0 as int, value->0)))
    } else {
        Ok(JsonView::List(items.update(place->0 as int, value->0)))
    }
}

/// A document after a patch under a path.
pub open spec fn patched(
    document: JsonView,
    names: Seq<Seq<char>>,
    operation: ProposalPatchOperation,
    value: Option<Option<JsonView>>,
) -> Result<JsonView, RuntimeHostError>
    decreases names.len(),
{
    if names.len() == 0 {
        Err(patch_error("proposal_patch_path_invalid"))
    } else if names.len() == 1 {
        if value == Some(None::<JsonView>) {
            Err(patch_error("proposal_patch_value_invalid"))
        } else {
            let given = match value {
                Some(given) => given,
                None => None,
            };
            match document {
                JsonView::Object(members) => object_patched(members, names[0], operation, given),
                JsonView::List(items) => list_patched(items, names[0], operation, given),
                _ => Err(patch_error("proposal_patch_parent_invalid")),
            }
        }
    } else {
        let missing = Err(patch_error("proposal_patch_parent_missing"));
        match document {
            JsonView::Object(members) => if !members.contains_key(names[0]) {
                missing
            } else {
                match patched(members[names[0]], names.skip(1), operation, value) {
                    Ok(child) => Ok(JsonView::Object(members.insert(names[0], child))),
                    Err(error) => Err(error),
                }
            },
            JsonView::List(items) => match index_named(names[0]) {
                None => Err(patch_error("proposal_patch_index_invalid")),
                Some(index) => if index >= items.len() {
                    missing
                } else {
                    match patched(items[index as int], names.skip(1), operation, value) {
                        Ok(child) => Ok(JsonView::List(items.update(index as int, child))),
                        Err(error) => Err(error),
                    }
                },
            },
            _ => missing,
        }
    }
}

/// A result that holds a well-formed document, or the error.
pub open spec fn document_is(
    result: RuntimeHostResult<Json>,
    expected: Result<JsonView, RuntimeHostError>,
) -> bool {
    match expected {
        Ok(value) => result matches Ok(json) && json_wf(json) && json_view(json) == value,
        Err(error) => result matches Err(actual) && actual == error,
    }
}

pub open spec fn value_wf(value: Option<Option<Json>>) -> bool {
    value matches Some(Some(json)) ==> json_wf(json)
}

pub open spec fn optional_view(value: Option<Json>) -> Option<JsonView> {
    match value {
        Some(json) => Some(json_view(json)),
        None => None,
    }
}

fn required_patch_value(value: Option<Json>) -> (result: RuntimeHostResult<Json>)
    ensures
        match value {
            Some(json) => result matches Ok(given) && given == json,
            None => result matches Err(error) && error == patch_error(
                "proposal_patch_value_missing",
            ),
        },
{
    match value {
        Some(json) => Ok(json),
        None => Err(request("proposal_patch_value_missing", "apply_proposal_patch")),
    }
}

fn apply_object_patch(
    members: OrderedMap<String, Json>,
    key: &String,
    operation: ProposalPatchOperation,
    value: Option<Json>,
) -> (result: RuntimeHostResult<Json>)
    requires
        json_wf(Json::Object(members)),
        value matches Some(json) ==> json_wf(json),
    ensures
        document_is(
            result,
            object_patched(member_views(members@), key@, operation, optional_view(value)),
        ),
{
    let mut members = members;
    let known = get_member(&members, key).is_some();
    let adds = operation == ProposalPatchOperation::Add;
    if known == adds {
        return Err(request("proposal_patch_target_conflict", "apply_proposal_patch"));
    }
    if operation == ProposalPatchOperation::Remove {
        let _ = take_member(&mut members, key);
    } else {
        let given = required_patch_value(value)?;
        put_member(&mut members, key.as_str(), given);
    }
    proof {
        lemma_object_view(members);
    }
    Ok(Json::Object(members))
}

fn apply_array_patch(
    items: Vec<Json>,
    token: &String,
    operation: ProposalPatchOperation,
    value: Option<Json>,
) -> (result: RuntimeHostResult<Json>)
    requires
        json_wf(Json::List(items)),
        value matches Some(json) ==> json_wf(json),
    ensures
        document_is(
            result,
            list_patched(item_views(items@), token@, operation, optional_view(value)),
        ),
{
    let mut items = items;
    let ghost before = items@;
    proof {
        lemma_items_wf(items);
    }
    let adds = operation == ProposalPatchOperation::Add;
    let index: usize = if adds && same_text(token.as_str(), "-") {
        items.len()
    } else {
        parse_array_index(token.as_str())?
    };
    if index > items.len() || (!adds && index == items.len()) {
        return Err(request("proposal_patch_target_conflict", "apply_proposal_patch"));
    }
    if operation == ProposalPatchOperation::Remove {
        let _ = items.remove(index);
        proof {
            assert(item_views(items@) =~= item_views(before).remove(index as int));
            assert(all_wf(items@)) by {
                assert forall|i: int| 0 <= i < items@.len() implies json_wf(
                    #[trigger] items@[i],
                ) by {
                    if i < index {
                        assert(items@[i] == before[i]);
                    } else {
                        assert(items@[i] == before[i + 1]);
                    }
                }
            }
        }
    } else {
        let given = required_patch_value(value)?;
        if adds {
            items.insert(index, given);
            proof {
                assert(item_views(items@) =~= item_views(before).insert(
                    index as int,
                    json_view(given),
                ));
                assert forall|i: int| 0 <= i < items@.len() implies json_wf(
                    #[trigger] items@[i],
                ) by {
                    if i < index {
                        assert(items@[i] == before[i]);
                    } else if i > index {
                        assert(items@[i] == before[i - 1]);
                    }
                }
            }
        } else {
            items.set(index, given);
            proof {
                assert(item_views(items@) =~= item_views(before).update(
                    index as int,
                    json_view(given),
                ));
                assert forall|i: int| 0 <= i < items@.len() implies json_wf(
                    #[trigger] items@[i],
                ) by {
                    if i != index {
                        assert(items@[i] == before[i]);
                    }
                }
            }
        }
    }
    proof {
        lemma_items_wf(items);
        lemma_list_view(items);
    }
    Ok(Json::List(items))
}

/// Changes a document under the names from `depth` on.
fn patch_under(
    document: Json,
    names: &Vec<String>,
    depth: usize,
    operation: ProposalPatchOperation,
    value: Option<Option<Json>>,
) -> (result: RuntimeHostResult<Json>)
    requires
        json_wf(document),
        value_wf(value),
        depth < names@.len(),
    ensures
        document_is(
            result,
            patched(
                json_view(document),
                texts(names@).skip(depth as int),
                operation,
                value_view(value),
            ),
        ),
    decreases names@.len() - depth,
{
    let ghost rest = texts(names@).skip(depth as int);
    let name = &names[depth];
    proof {
        assert(rest[0] == name@);
        assert(rest.skip(1) =~= texts(names@).skip(depth + 1));
    }
    if names.len() - depth == 1 {
        let given: Option<Json> = match value {
            Some(Some(json)) => Some(json),
            Some(None) => {
                return Err(request("proposal_patch_value_invalid", "apply_proposal_patch"));
            },
            None => None,
        };
        return match document {
            Json::Object(members) => {
                proof {
                    lemma_object_view(members);
                }
                apply_object_patch(members, name, operation, given)
            },
            Json::List(items) => {
                proof {
                    lemma_list_view(items);
                }
                apply_array_patch(items, name, operation, given)
            },
            _ => Err(request("proposal_patch_parent_invalid", "apply_proposal_patch")),
        };
    }
    match document {
        Json::Object(members) => {
            proof {
                lemma_object_view(members);
            }
            let mut members = members;
            let ghost before = member_views(members@);
            let child = match take_member(&mut members, name) {
                Some(child) => child,
                None => {
                    return Err(request("proposal_patch_parent_missing", "apply_proposal_patch"));
                },
            };
            let child = patch_under(child, names, depth + 1, operation, value)?;
            put_member(&mut members, name.as_str(), child);
            proof {
                lemma_object_view(members);
                assert(member_views(members@) =~= before.insert(name@, json_view(child)));
            }
            Ok(Json::Object(members))
        },
        Json::List(items) => {
            proof {
                lemma_list_view(items);
                lemma_items_wf(items);
            }
            let mut items = items;
            let ghost before = items@;
            let index = parse_array_index(name.as_str())?;
            if index >= items.len() {
                return Err(request("proposal_patch_parent_missing", "apply_proposal_patch"));
            }
            let child = items.remove(index);
            let child = patch_under(child, names, depth + 1, operation, value)?;
            items.insert(index, child);
            proof {
                assert(item_views(items@) =~= item_views(before).update(
                    index as int,
                    json_view(child),
                ));
                assert forall|i: int| 0 <= i < items@.len() implies json_wf(
                    #[trigger] items@[i],
                ) by {
                    if i != index {
                        assert(items@[i] == before[i]);
                    }
                }
                lemma_items_wf(items);
                lemma_list_view(items);
            }
            Ok(Json::List(items))
        },
        _ => Err(request("proposal_patch_parent_missing", "apply_proposal_patch")),
    }
}

/// A document after a change of a value at a path.
pub open spec fn changed_at(
    document: JsonView,
    path: Seq<char>,
    operation: ProposalPatchOperation,
    value: Option<Option<JsonView>>,
) -> Result<JsonView, RuntimeHostError> {
    if !path_readable(path) {
        Err(patch_error("proposal_patch_path_invalid"))
    } else {
        patched(document, path_names(path), operation, value)
    }
}

/// Changes a document at a path. The value is decoded; where it was given but
/// could not be decoded, there is nothing inside.
pub fn change_document(
    document: Json,
    path: &str,
    operation: ProposalPatchOperation,
    value: Option<Option<Json>>,
) -> (result: RuntimeHostResult<Json>)
    requires
        json_wf(document),
        value_wf(value),
    ensures
        document_is(
            result,
            changed_at(json_view(document), path@, operation, value_view(value)),
        ),
{
    let names = decode_pointer(path)?;
    if names.len() == 0 {
        assert(path_names(path@).len() == 0);
        return Err(request("proposal_patch_path_invalid", "apply_proposal_patch"));
    }
    assert(texts(names@).skip(0) =~= texts(names@));
    patch_under(document, &names, 0, operation, value)
}

/// The value that a patch gives, if it gives one.
pub open spec fn patch_value(patch: CatalogDeclarationPatch) -> Option<Option<JsonView>> {
    match patch.value_json {
        Some(text) => Some(json_document(utf8(text@))),
        None => None,
    }
}

/// A document after a patch.
pub open spec fn patch_result(document: JsonView, patch: CatalogDeclarationPatch) -> Result<
    JsonView,
    RuntimeHostError,
> {
    changed_at(document, patch.path@, patch.operation, patch_value(patch))
}

pub fn apply_patch(document: Json, patch: &CatalogDeclarationPatch) -> (result: RuntimeHostResult<
    Json,
>)
    requires
        json_wf(document),
    ensures
        document_is(result, patch_result(json_view(document), *patch)),
{
    let value = match &patch.value_json {
        Some(text) => match parse_json(text.as_str().as_bytes()) {
            Ok(json) => Some(Some(json)),
            Err(_) => Some(None),
        },
        None => None,
    };
    change_document(document, patch.path.as_str(), patch.operation, value)
}

/// The documents of a catalog, decoded.
#[derive(Debug)]
pub struct ProposalDocuments {
    pub tasks: Json,
    pub pools: Json,
    pub activity: Json,
    pub timeline: Json,
}

/// The values of the documents.
pub struct DocumentsView {
    pub tasks: JsonView,
    pub pools: JsonView,
    pub activity: JsonView,
    pub timeline: JsonView,
}

impl View for ProposalDocuments {
    type V = DocumentsView;

    open spec fn view(&self) -> DocumentsView {
        DocumentsView {
            tasks: json_view(self.tasks),
            pools: json_view(self.pools),
            activity: json_view(self.activity),
            timeline: json_view(self.timeline),
        }
    }
}

impl ProposalDocuments {
    pub open spec fn wf(&self) -> bool {
        json_wf(self.tasks) && json_wf(self.pools) && json_wf(self.activity) && json_wf(
            self.timeline,
        )
    }
}

impl DocumentsView {
    pub open spec fn document(self, name: ProposalDocument) -> JsonView {
        match name {
            ProposalDocument::Tasks => self.tasks,
            ProposalDocument::Pools => self.pools,
            ProposalDocument::Activity => self.activity,
            ProposalDocument::Timeline => self.timeline,
        }
    }

    pub open spec fn with_document(self, name: ProposalDocument, document: JsonView) ->
        DocumentsView {
        match name {
            ProposalDocument::Tasks => DocumentsView { tasks: document, ..self },
            ProposalDocument::Pools => DocumentsView { pools: document, ..self },
            ProposalDocument::Activity => DocumentsView { activity: document, ..self },
            ProposalDocument::Timeline => DocumentsView { timeline: document, ..self },
        }
    }

    /// The documents after some patches, in order.
    pub open spec fn with_patches(self, patches: Seq<CatalogDeclarationPatch>) -> Result<
        DocumentsView,
        RuntimeHostError,
    >
        decreases patches.len(),
    {
        if patches.len() == 0 {
            Ok(self)
        } else {
            match patch_result(self.document(patches[0].document), patches[0]) {
                Err(error) => Err(error),
                Ok(document) => self.with_document(patches[0].document, document).with_patches(
                    patches.skip(1),
                ),
            }
        }
    }
}

/// A result that holds documents, or the error.
pub open spec fn documents_are(
    result: RuntimeHostResult<ProposalDocuments>,
    expected: Result<DocumentsView, RuntimeHostError>,
) -> bool {
    match expected {
        Ok(value) => result matches Ok(documents) && documents.wf() && documents@ == value,
        Err(error) => result matches Err(actual) && actual == error,
    }
}

/// The documents after some patches, in order.
pub fn apply_catalog_diff(
    documents: ProposalDocuments,
    patches: &Vec<CatalogDeclarationPatch>,
) -> (result: RuntimeHostResult<ProposalDocuments>)
    requires
        documents.wf(),
    ensures
        documents_are(result, documents@.with_patches(patches@)),
{
    let mut current = documents;
    let mut index: usize = 0;
    assert(patches@.skip(0) =~= patches@);
    while index < patches.len()
        invariant
            index <= patches.len(),
            current.wf(),
            documents@.with_patches(patches@) == current@.with_patches(
                patches@.skip(index as int),
            ),
        decreases patches.len() - index,
    {
        let patch = &patches[index];
        proof {
            let left = patches@.skip(index as int);
            assert(left[0] == *patch);
            assert(left.skip(1) =~= patches@.skip(index + 1));
        }
        let ProposalDocuments { tasks, pools, activity, timeline } = current;
        current = match patch.document {
            ProposalDocument::Tasks => ProposalDocuments {
                tasks: apply_patch(tasks, patch)?,
                pools,
                activity,
                timeline,
            },
            ProposalDocument::Pools => ProposalDocuments {
                tasks,
                pools: apply_patch(pools, patch)?,
                activity,
                timeline,
            },
            ProposalDocument::Activity => ProposalDocuments {
                tasks,
                pools,
                activity: apply_patch(activity, patch)?,
                timeline,
            },
            ProposalDocument::Timeline => ProposalDocuments {
                tasks,
                pools,
                activity,
                timeline: apply_patch(timeline, patch)?,
            },
        };
        index += 1;
    }
    assert(patches@.skip(patches@.len() as int) =~= Seq::empty());
    Ok(current)
}

/// A new task after the example of another.
#[derive(Debug, Clone)]
pub struct TaskTemplateInstantiation {
    pub new_task_id: String,
    pub template_task_id: String,
    pub instance_id: String,
    pub priority: Option<i64>,
    pub strategic_weight_milli: Option<i64>,
}

pub open spec fn template_error(code: &'static str) -> RuntimeHostError {
    policy_fatal(code, "instantiate_template")
}

/// A document with another catalog version.
pub open spec fn with_version(document: JsonView, version: u64) -> Option<JsonView> {
    match member_of(document, "catalog"@) {
        Some(JsonView::Object(catalog)) => Some(
            JsonView::Object(
                document->Object_0.insert(
                    "catalog"@,
                    JsonView::Object(
                        catalog.insert("catalog_version"@, JsonView::Number(decimal(version as nat))),
                    ),
                ),
            ),
        ),
        _ => None,
    }
}

fn set_document_version(document: Json, version: u64) -> (result: RuntimeHostResult<Json>)
    requires
        json_wf(document),
    ensures
        match with_version(json_view(document), version) {
            Some(value) => result matches Ok(json) && json_wf(json) && json_view(json) == value,
            None => result matches Err(error) && error == template_error(
                "proposal_catalog_shape_invalid",
            ),
        },
{
    if let Json::Object(members) = document {
        proof {
            lemma_object_view(members);
        }
        let mut members = members;
        let ghost before = member_views(members@);
        let name: String = "catalog".to_owned();
        if let Some(Json::Object(catalog)) = take_member(&mut members, &name) {
            proof {
                lemma_object_view(catalog);
            }
            let mut catalog = catalog;
            put_member(&mut catalog, "catalog_version", Json::unsigned(version));
            proof {
                lemma_object_view(catalog);
            }
            put_member(&mut members, "catalog", Json::Object(catalog));
            proof {
                lemma_object_view(members);
                assert(member_views(members@) =~= before.insert(
                    "catalog"@,
                    json_view(Json::Object(catalog)),
                ));
            }
            return Ok(Json::Object(members));
        }
    }
    Err(fatal("proposal_catalog_shape_invalid", "instantiate_template"))
}

/// The task has an id.
pub open spec fn task_is(id: Seq<char>) -> spec_fn(JsonView) -> bool {
    |task: JsonView| member_text(task, "id"@) == Some(id)
}

fn find_task(tasks: &Vec<Json>, id: &str) -> (found: Option<usize>)
    requires
        all_wf(tasks@),
    ensures
        match first_position(item_views(tasks@), task_is(id@)) {
            Some(index) => found is Some && found->0 == index && 0 <= index < tasks@.len(),
            None => found is None,
        },
{
    let ghost all = item_views(tasks@);
    let ghost wanted = task_is(id@);
    let mut index: usize = 0;
    while index < tasks.len()
        invariant
            index <= tasks.len(),
            all_wf(tasks@),
            all == item_views(tasks@),
            wanted == task_is(id@),
            forall|i: int| 0 <= i < index ==> !wanted(#[trigger] all[i]),
        decreases tasks.len() - index,
    {
        assert(all[index as int] == json_view(tasks@[index as int]));
        assert(json_wf(tasks@[index as int]));
        if tasks[index].member_is("id", id) {
            proof {
                lemma_first_position(all, wanted, index as int);
            }
            return Some(index);
        }
        index += 1;
    }
    proof {
        lemma_no_position(all, wanted);
    }
    None
}

/// The scope of one instance.
pub open spec fn instance_scope(instance_id: Seq<char>) -> JsonView {
    JsonView::Object(
        Map::<Seq<char>, JsonView>::empty().insert("kind"@, JsonView::Text("instance"@)).insert(
            "instance_id"@,
            JsonView::Text(instance_id),
        ),
    )
}

/// A member set where a number is given.
pub open spec fn with_number(
    members: Map<Seq<char>, JsonView>,
    key: Seq<char>,
    number: Option<i64>,
) -> Map<Seq<char>, JsonView> {
    match number {
        Some(number) => members.insert(key, JsonView::Number(signed_decimal(number as int))),
        None => members,
    }
}

/// A task made after a template: it has its own id and scope, and stops on its
/// own feedback where the template stopped on its own.
pub open spec fn made_task(
    template: Map<Seq<char>, JsonView>,
    instantiation: TaskTemplateInstantiation,
) -> JsonView {
    let own = template.insert("id"@, JsonView::Text(instantiation.new_task_id@)).insert(
        "scope"@,
        instance_scope(instantiation.instance_id@),
    ).insert("instance_overrides"@, JsonView::List(Seq::empty()));
    let weighted = with_number(
        with_number(own, "priority"@, instantiation.priority),
        "strategic_weight_milli"@,
        instantiation.strategic_weight_milli,
    );
    let feedback = if weighted.contains_key("feedback_stop"@) {
        weighted["feedback_stop"@]
    } else {
        JsonView::Null
    };
    if member_text(feedback, "task_id"@) == Some(instantiation.template_task_id@) {
        JsonView::Object(
            weighted.insert(
                "feedback_stop"@,
                JsonView::Object(
                    feedback->Object_0.insert(
                        "task_id"@,
                        JsonView::Text(instantiation.new_task_id@),
                    ),
                ),
            ),
        )
    } else {
        JsonView::Object(weighted)
    }
}

fn make_task(template: OrderedMap<String, Json>, instantiation: &TaskTemplateInstantiation) -> (task:
    Json)
    requires
        json_wf(Json::Object(template)),
    ensures
        json_wf(task),
        json_view(task) == made_task(member_views(template@), *instantiation),
{
    let mut members = template;
    put_member(&mut members, "id", Json::Text(instantiation.new_task_id.clone()));
    let mut scope: OrderedMap<String, Json> = OrderedMap::new();
    assert(member_views(scope@) =~= Map::empty());
    put_member(&mut scope, "kind", Json::Text("instance".to_owned()));
    put_member(&mut scope, "instance_id", Json::Text(instantiation.instance_id.clone()));
    proof {
        lemma_object_view(scope);
    }
    put_member(&mut members, "scope", Json::Object(scope));
    let nothing: Vec<Json> = Vec::new();
    proof {
        lemma_list_view(nothing);
        lemma_items_wf(nothing);
        assert(item_views(nothing@) =~= Seq::empty());
    }
    put_member(&mut members, "instance_overrides", Json::List(nothing));
    if let Some(priority) = instantiation.priority {
        put_member(&mut members, "priority", Json::signed(priority));
    }
    if let Some(weight) = instantiation.strategic_weight_milli {
        put_member(&mut members, "strategic_weight_milli", Json::signed(weight));
    }
    let ghost weighted = member_views(members@);
    let name: String = "feedback_stop".to_owned();
    let own_feedback = match get_member(&members, &name) {
        Some(feedback) => feedback.member_is("task_id", instantiation.template_task_id.as_str()),
        None => false,
    };
    if own_feedback {
        match take_member(&mut members, &name) {
            Some(Json::Object(feedback)) => {
                proof {
                    lemma_object_view(feedback);
                }
                let mut feedback = feedback;
                put_member(&mut feedback, "task_id", Json::Text(instantiation.new_task_id.clone()));
                proof {
                    lemma_object_view(feedback);
                }
                put_member(&mut members, "feedback_stop", Json::Object(feedback));
                assert(member_views(members@) =~= weighted.insert(
                    "feedback_stop"@,
                    json_view(Json::Object(feedback)),
                ));
            },
            _ => {},
        }
    }
    proof {
        lemma_object_view(members);
    }
    Json::Object(members)
}

/// The tasks document with a task made after a template.
pub open spec fn with_made_task(document: JsonView, instantiation: TaskTemplateInstantiation) ->
    Result<JsonView, RuntimeHostError> {
    match member_of(document, "tasks"@) {
        Some(JsonView::List(tasks)) => if first_position(
            tasks,
            task_is(instantiation.new_task_id@),
        ) is Some {
            Err(policy_request("proposal_task_identity_conflict", "instantiate_template"))
        } else {
            match first_position(tasks, task_is(instantiation.template_task_id@)) {
                None => Err(policy_request("proposal_template_unknown", "instantiate_template")),
                Some(index) => Ok(
                    JsonView::Object(
                        document->Object_0.insert(
                            "tasks"@,
                            JsonView::List(
                                tasks.push(made_task(tasks[index]->Object_0, instantiation)),
                            ),
                        ),
                    ),
                ),
            }
        },
        _ => Err(template_error("proposal_tasks_shape_invalid")),
    }
}

fn add_made_task(document: Json, instantiation: &TaskTemplateInstantiation) -> (result:
    RuntimeHostResult<Json>)
    requires
        json_wf(document),
    ensures
        document_is(result, with_made_task(json_view(document), *instantiation)),
{
    if let Json::Object(members) = document {
        proof {
            lemma_object_view(members);
        }
        let mut members = members;
        let ghost before = member_views(members@);
        let name: String = "tasks".to_owned();
        if let Some(Json::List(tasks)) = take_member(&mut members, &name) {
            let mut tasks = tasks;
            let ghost listed = tasks@;
            proof {
                lemma_list_view(tasks);
                lemma_items_wf(tasks);
            }
            if find_task(&tasks, instantiation.new_task_id.as_str()).is_some() {
                return Err(request("proposal_task_identity_conflict", "instantiate_template"));
            }
            let template = match find_task(&tasks, instantiation.template_task_id.as_str()) {
                Some(index) => {
                    proof {
                        lemma_position(
                            item_views(tasks@),
                            task_is(instantiation.template_task_id@),
                        );
                        assert(json_wf(tasks@[index as int]));
                    }
                    tasks[index].copy()
                },
                None => {
                    return Err(request("proposal_template_unknown", "instantiate_template"));
                },
            };
            let task = match template {
                Json::Object(template) => {
                    proof {
                        lemma_object_view(template);
                    }
                    make_task(template, instantiation)
                },
                _ => {
                    return Err(fatal("proposal_template_shape_invalid", "instantiate_template"));
                },
            };
            tasks.push(task);
            proof {
                assert(item_views(tasks@) =~= item_views(listed).push(json_view(task)));
                assert forall|i: int| 0 <= i < tasks@.len() implies json_wf(
                    #[trigger] tasks@[i],
                ) by {
                    if i < listed.len() {
                        assert(tasks@[i] == listed[i]);
                    }
                }
                lemma_items_wf(tasks);
                lemma_list_view(tasks);
            }
            put_member(&mut members, "tasks", Json::List(tasks));
            proof {
                lemma_object_view(members);
                assert(member_views(members@) =~= before.insert(
                    "tasks"@,
                    json_view(Json::List(tasks)),
                ));
            }
            return Ok(Json::Object(members));
        }
    }
    Err(fatal("proposal_tasks_shape_invalid", "instantiate_template"))
}

impl DocumentsView {
    /// The documents with a task made after a template, under another version.
    pub open spec fn with_instantiation(
        self,
        version: u64,
        instantiation: TaskTemplateInstantiation,
    ) -> Result<DocumentsView, RuntimeHostError> {
        let tasks = with_version(self.tasks, version);
        let pools = with_version(self.pools, version);
        let activity = with_version(self.activity, version);
        let timeline = with_version(self.timeline, version);
        if tasks is None || pools is None || activity is None || timeline is None {
            Err(template_error("proposal_catalog_shape_invalid"))
        } else {
            match with_made_task(tasks->0, instantiation) {
                Err(error) => Err(error),
                Ok(tasks) => Ok(
                    DocumentsView {
                        tasks,
                        pools: pools->0,
                        activity: activity->0,
                        timeline: timeline->0,
                    },
                ),
            }
        }
    }
}

pub fn instantiate_template(
    documents: ProposalDocuments,
    target_catalog_version: u64,
    instantiation: &TaskTemplateInstantiation,
) -> (result: RuntimeHostResult<ProposalDocuments>)
    requires
        documents.wf(),
    ensures
        documents_are(
            result,
            documents@.with_instantiation(target_catalog_version, *instantiation),
        ),
{
    let ProposalDocuments { tasks, pools, activity, timeline } = documents;
    let tasks = set_document_version(tasks, target_catalog_version)?;
    let pools = set_document_version(pools, target_catalog_version)?;
    let activity = set_document_version(activity, target_catalog_version)?;
    let timeline = set_document_version(timeline, target_catalog_version)?;
    let tasks = add_made_task(tasks, instantiation)?;
    Ok(ProposalDocuments { tasks, pools, activity, timeline })
}

#[derive(Debug)]
pub enum ProposalKind {
    /// Something that the declarations cannot say yet.
    LanguageExtension,
    ParameterInstantiation { instantiation: TaskTemplateInstantiation },
    CatalogDiff { patches: Vec<CatalogDeclarationPatch> },
}

/// A proposal. `well_formed` says whether it is valid in itself.
#[derive(Debug)]
pub struct CatalogProposal {
    pub well_formed: bool,
    pub base_catalog_hash: String,
    pub base_catalog_version: u64,
    pub target_catalog_version: u64,
    pub proposal: ProposalKind,
}

/// What is to be done with a proposal.
#[derive(Debug)]
pub enum ProposalWork {
    NeedsHumanSpecification,
    /// The documents to compile.
    Compile(CatalogSources),
}

pub open spec fn proposal_fault(code: &'static str) -> RuntimeHostError {
    policy_fatal(code, "compile_proposal")
}

/// What the documents of a catalog say; nothing where one holds no document.
pub open spec fn decoded_sources(sources: CatalogSources) -> Option<DocumentsView> {
    match (
        json_document(sources.tasks.bytes@),
        json_document(sources.pools.bytes@),
        json_document(sources.activity.bytes@),
        json_document(sources.timeline.bytes@),
    ) {
        (Some(tasks), Some(pools), Some(activity), Some(timeline)) => Some(
            DocumentsView { tasks, pools, activity, timeline },
        ),
        _ => None,
    }
}

/// A document written in place of another.
pub open spec fn is_written(
    written: CatalogDocumentSource,
    source: CatalogDocumentSource,
    document: JsonView,
) -> bool {
    written.source_uri@ == source.source_uri@ && written.bytes@ == json_bytes(document)
}

/// Documents written in place of others.
pub open spec fn are_written(
    written: CatalogSources,
    sources: CatalogSources,
    documents: DocumentsView,
) -> bool {
    &&& is_written(written.tasks, sources.tasks, documents.tasks)
    &&& is_written(written.pools, sources.pools, documents.pools)
    &&& is_written(written.activity, sources.activity, documents.activity)
    &&& is_written(written.timeline, sources.timeline, documents.timeline)
}

fn parse_document(source: &CatalogDocumentSource) -> (result: RuntimeHostResult<Json>)
    ensures
        match json_document(source.bytes@) {
            Some(document) => result matches Ok(json) && json_wf(json) && json_view(json)
                == document,
            None => result matches Err(error) && error == proposal_fault(
                "proposal_base_document_invalid",
            ),
        },
{
    match parse_json(source.bytes.as_slice()) {
        Ok(json) => Ok(json),
        Err(_) => Err(fatal("proposal_base_document_invalid", "compile_proposal")),
    }
}

fn encode_document(source: &CatalogDocumentSource, document: &Json) -> (result: RuntimeHostResult<
    CatalogDocumentSource,
>)
    requires
        json_wf(*document),
    ensures
        result matches Ok(written) && is_written(written, *source, json_view(*document)),
{
    match write_json(document) {
        Ok(bytes) => Ok(CatalogDocumentSource { source_uri: source.source_uri.clone(), bytes }),
        Err(_) => Err(fatal("proposal_document_encode_failed", "compile_proposal")),
    }
}

impl ProposalDocuments {
    /// Reads the documents of a catalog.
    pub fn parse(sources: &CatalogSources) -> (result: RuntimeHostResult<Self>)
        ensures
            match decoded_sources(*sources) {
                Some(value) => result matches Ok(documents) && documents.wf() && documents@
                    == value,
                None => result matches Err(error) && error == proposal_fault(
                    "proposal_base_document_invalid",
                ),
            },
    {
        Ok(
            ProposalDocuments {
                tasks: parse_document(&sources.tasks)?,
                pools: parse_document(&sources.pools)?,
                activity: parse_document(&sources.activity)?,
                timeline: parse_document(&sources.timeline)?,
            },
        )
    }

    /// Writes the documents in place of those of a catalog.
    pub fn encode(&self, sources: &CatalogSources) -> (result: RuntimeHostResult<CatalogSources>)
        requires
            self.wf(),
        ensures
            result matches Ok(written) && are_written(written, *sources, self@),
    {
        Ok(
            CatalogSources {
                tasks: encode_document(&sources.tasks, &self.tasks)?,
                pools: encode_document(&sources.pools, &self.pools)?,
                activity: encode_document(&sources.activity, &self.activity)?,
                timeline: encode_document(&sources.timeline, &self.timeline)?,
            },
        )
    }
}

impl DocumentsView {
    /// The documents that a proposal asks for.
    pub open spec fn with_proposal(self, proposal: CatalogProposal) -> Result<
        DocumentsView,
        RuntimeHostError,
    > {
        match proposal.proposal {
            ProposalKind::ParameterInstantiation { instantiation } => self.with_instantiation(
                proposal.target_catalog_version,
                instantiation,
            ),
            ProposalKind::CatalogDiff { patches } => self.with_patches(patches@),
            ProposalKind::LanguageExtension => Ok(self),
        }
    }
}

/// Makes the documents that a proposal asks for. It must start from the active
/// generation, whose documents are `sources`.
pub fn prepare_proposal(
    active: &CatalogGeneration,
    sources: &CatalogSources,
    proposal: &CatalogProposal,
) -> (result: RuntimeHostResult<ProposalWork>)
    ensures
        if !proposal.well_formed {
            result matches Err(error) && error == policy_request(
                "proposal_invalid",
                "compile_proposal",
            )
        } else if proposal.base_catalog_hash@ != active.catalog_hash@
            || proposal.base_catalog_version != active.catalog_version {
            result matches Err(error) && error == policy_request(
                "proposal_base_catalog_changed",
                "compile_proposal",
            )
        } else if proposal.proposal is LanguageExtension {
            result matches Ok(ProposalWork::NeedsHumanSpecification)
        } else {
            match decoded_sources(*sources) {
                None => result matches Err(error) && error == proposal_fault(
                    "proposal_base_document_invalid",
                ),
                Some(documents) => match documents.with_proposal(*proposal) {
                    Ok(made) => result matches Ok(ProposalWork::Compile(written)) && are_written(
                        written,
                        *sources,
                        made,
                    ),
                    Err(fault) => result matches Err(error) && error == fault,
                },
            }
        },
{
    if !proposal.well_formed {
        return Err(request("proposal_invalid", "compile_proposal"));
    }
    if !same_text(proposal.base_catalog_hash.as_str(), active.catalog_hash.as_str())
        || proposal.base_catalog_version != active.catalog_version {
        return Err(request("proposal_base_catalog_changed", "compile_proposal"));
    }
    let made = match &proposal.proposal {
        ProposalKind::LanguageExtension => {
            return Ok(ProposalWork::NeedsHumanSpecification);
        },
        ProposalKind::ParameterInstantiation { instantiation } => instantiate_template(
            ProposalDocuments::parse(sources)?,
            proposal.target_catalog_version,
            instantiation,
        )?,
        ProposalKind::CatalogDiff { patches } => apply_catalog_diff(
            ProposalDocuments::parse(sources)?,
            patches,
        )?,
    };
    Ok(ProposalWork::Compile(made.encode(sources)?))
}

/// The compiled catalog must have the version that the proposal announced.
/// `compiled` is nothing where the documents do not compile.
pub fn validate_compiled_target(target_catalog_version: u64, compiled: Option<u64>) -> (result:
    RuntimeHostResult<()>)
    ensures
        result == match compiled {
            None => Err(policy_request("proposal_catalog_compile_failed", "compile_proposal")),
            Some(version) => if version == target_catalog_version {
                Ok::<(), RuntimeHostError>(())
            } else {
                Err(policy_request("proposal_target_version_mismatch", "compile_proposal"))
            },
        },
{
    match compiled {
        None => Err(request("proposal_catalog_compile_failed", "compile_proposal")),
        Some(version) => {
            if version != target_catalog_version {
                return Err(request("proposal_target_version_mismatch", "compile_proposal"));
            }
            Ok(())
        },
    }
}

/// The preview of a proposal. A preview that its contract refuses is a fault of
/// the host.
pub fn checked_preview<P>(preview: Option<P>) -> (result: RuntimeHostResult<P>)
    ensures
        match preview {
            Some(preview) => result == Ok::<P, RuntimeHostError>(preview),
            None => result == Err::<P, _>(
                policy_fatal("proposal_preview_invalid", "compile_proposal"),
            ),
        },
{
    match preview {
        Some(preview) => Ok(preview),
        None => Err(fatal("proposal_preview_invalid", "compile_proposal")),
    }
}

impl ProposalWork {
    /// The documents of a proposal that may be promoted.
    pub fn into_ready(self) -> (result: RuntimeHostResult<CatalogSources>)
        ensures
            match self {
                ProposalWork::Compile(sources) => result matches Ok(ready) && ready == sources,
                ProposalWork::NeedsHumanSpecification => result matches Err(error) && error
                    == policy_request("proposal_requires_human_specification", "promote_proposal"),
            },
    {
        match self {
            ProposalWork::Compile(sources) => Ok(sources),
            ProposalWork::NeedsHumanSpecification => Err(
                request("proposal_requires_human_specification", "promote_proposal"),
            ),
        }
    }
}

/// Adding a member and removing it again leaves an object as it was.
pub proof fn law_removal_undoes_addition(
    members: Map<Seq<char>, JsonView>,
    key: Seq<char>,
    value: JsonView,
)
    requires
        !members.contains_key(key),
    ensures
        object_patched(members, key, ProposalPatchOperation::Add, Some(value)) matches Ok(
            JsonView::Object(added),
        ) && object_patched(added, key, ProposalPatchOperation::Remove, None) == Ok::<
            JsonView,
            RuntimeHostError,
        >(JsonView::Object(members)),
{
    assert(members.insert(key, value).remove(key) =~= members);
}

/// A patch of one document leaves the others as they are.
pub proof fn law_patch_changes_one_document(
    documents: DocumentsView,
    patched_one: ProposalDocument,
    other: ProposalDocument,
    value: JsonView,
)
    requires
        patched_one != other,
    ensures
        documents.with_document(patched_one, value).document(other) == documents.document(other),
        documents.with_document(patched_one, value).document(patched_one) == value,
{
}

/// Instantiating a template adds one task at the end and keeps the others.
pub proof fn law_instantiation_keeps_other_tasks(
    document: JsonView,
    instantiation: TaskTemplateInstantiation,
    index: int,
)
    requires
        with_made_task(document, instantiation) is Ok,
        0 <= index < (member_of(document, "tasks"@)->0)->List_0.len(),
    ensures
        ({
            let before = (member_of(document, "tasks"@)->0)->List_0;
            let after = (member_of(
                with_made_task(document, instantiation)->Ok_0,
                "tasks"@,
            )->0)->List_0;
            &&& after.len() == before.len() + 1
            &&& after[index] == before[index]
        }),
{
}

/// A member is added only where there is none, and replaced or removed only
/// where there is one; whatever is done, the other members stay.
pub proof fn law_member_patch_fits_the_object(
    members: Map<Seq<char>, JsonView>,
    key: Seq<char>,
    other: Seq<char>,
    value: JsonView,
)
    ensures
        object_patched(members, key, ProposalPatchOperation::Add, Some(value)) is Ok
            <==> !members.contains_key(key),
        object_patched(members, key, ProposalPatchOperation::Replace, Some(value)) is Ok
            <==> members.contains_key(key),
        object_patched(members, key, ProposalPatchOperation::Remove, None) is Ok
            <==> members.contains_key(key),
        object_patched(members, key, ProposalPatchOperation::Add, None) is Err,
        object_patched(members, key, ProposalPatchOperation::Replace, None) is Err,
        object_patched(members, key, ProposalPatchOperation::Add, Some(value)) matches Ok(
            JsonView::Object(after),
        ) ==> after.contains_key(key) && after[key] == value && (other != key ==> (
        after.contains_key(other) <==> members.contains_key(other)) && after[other]
            == members[other]),
        object_patched(members, key, ProposalPatchOperation::Replace, Some(value)) matches Ok(
            JsonView::Object(after),
        ) ==> after.contains_key(key) && after[key] == value && (other != key ==> (
        after.contains_key(other) <==> members.contains_key(other)) && after[other]
            == members[other]),
        object_patched(members, key, ProposalPatchOperation::Remove, None) matches Ok(
            JsonView::Object(after),
        ) ==> !after.contains_key(key) && (other != key ==> (after.contains_key(other)
            <==> members.contains_key(other)) && after[other] == members[other]),
{
}

/// An item is added at any place up to the end, which `-` names too, and the
/// items from there on move up; a replaced item keeps its place, and a removed
/// one lets the later items move down.
pub proof fn law_item_patch_fits_the_list(
    items: Seq<JsonView>,
    token: Seq<char>,
    place: nat,
    value: JsonView,
    index: int,
)
    requires
        index_named(token) == Some(place),
        0 <= index,
    ensures
        list_patched(items, token, ProposalPatchOperation::Add, Some(value)) is Ok <==> place
            <= items.len(),
        list_patched(items, token, ProposalPatchOperation::Replace, Some(value)) is Ok <==> place
            < items.len(),
        list_patched(items, token, ProposalPatchOperation::Remove, None) is Ok <==> place
            < items.len(),
        list_patched(items, token, ProposalPatchOperation::Add, Some(value)) matches Ok(
            JsonView::List(after),
        ) ==> after.len() == items.len() + 1 && after[place as int] == value && (index < place
            ==> after[index] == items[index]) && (place <= index < items.len() ==> after[index + 1]
            == items[index]),
        list_patched(items, token, ProposalPatchOperation::Replace, Some(value)) matches Ok(
            JsonView::List(after),
        ) ==> after.len() == items.len() && after[place as int] == value && (index != place && index
            < items.len() ==> after[index] == items[index]),
        list_patched(items, token, ProposalPatchOperation::Remove, None) matches Ok(
            JsonView::List(after),
        ) ==> after.len() == items.len() - 1 && (index < place ==> after[index] == items[index])
            && (place <= index < items.len() - 1 ==> after[index] == items[index + 1]),
{
    reveal_strlit("-");
    if token == "-"@ {
        assert(token[0] == '-');
        assert(index_digits(token) == token);
        assert(!is_digit_char(index_digits(token)[0]));
    }
}

/// `-` names the place behind the last item, and only for an addition.
pub proof fn law_dash_names_the_end(items: Seq<JsonView>, value: JsonView)
    ensures
        list_patched(items, "-"@, ProposalPatchOperation::Add, Some(value)) == Ok::<
            JsonView,
            RuntimeHostError,
        >(JsonView::List(items.push(value))),
        list_patched(items, "-"@, ProposalPatchOperation::Replace, Some(value)) is Err,
        list_patched(items, "-"@, ProposalPatchOperation::Remove, None) is Err,
{
    reveal_strlit("-");
    assert("-"@[0] == '-');
    assert(index_digits("-"@) == "-"@);
    assert(!is_digit_char(index_digits("-"@)[0]));
    assert(items.insert(items.len() as int, value) =~= items.push(value));
}

/// What a path leads to, name by name.
pub open spec fn found_at(document: JsonView, names: Seq<Seq<char>>) -> Option<JsonView>
    decreases names.len(),
{
    if names.len() == 0 {
        Some(document)
    } else {
        match document {
            JsonView::Object(members) => if members.contains_key(names[0]) {
                found_at(members[names[0]], names.skip(1))
            } else {
                None
            },
            JsonView::List(items) => match index_named(names[0]) {
                Some(index) => if index < items.len() {
                    found_at(items[index as int], names.skip(1))
                } else {
                    None
                },
                None => None,
            },
            _ => None,
        }
    }
}

/// A replacement is made exactly where the path leads to something, and its
/// value is then found there.
pub proof fn law_replaced_value_is_found(
    document: JsonView,
    names: Seq<Seq<char>>,
    value: JsonView,
)
    requires
        names.len() > 0,
    ensures
        patched(document, names, ProposalPatchOperation::Replace, Some(Some(value))) is Ok
            <==> found_at(document, names) is Some,
        patched(document, names, ProposalPatchOperation::Replace, Some(Some(value))) matches Ok(after)
            ==> found_at(after, names) == Some(value),
    decreases names.len(),
{
    reveal_with_fuel(found_at, 2);
    reveal_strlit("-");
    if names.len() > 1 {
        match document {
            JsonView::Object(members) => {
                if members.contains_key(names[0]) {
                    law_replaced_value_is_found(members[names[0]], names.skip(1), value);
                }
            },
            JsonView::List(items) => {
                if index_named(names[0]) is Some && index_named(names[0])->0 < items.len() {
                    law_replaced_value_is_found(
                        items[index_named(names[0])->0 as int],
                        names.skip(1),
                        value,
                    );
                }
            },
            _ => {},
        }
    } else {
        assert(names.skip(1).len() == 0);
    }
}

/// A removal is made exactly where the path leads to something, and an addition
/// to an object only where it leads to nothing yet.
pub proof fn law_patches_follow_their_path(
    document: JsonView,
    names: Seq<Seq<char>>,
    value: JsonView,
)
    requires
        names.len() > 0,
    ensures
        patched(document, names, ProposalPatchOperation::Remove, None) is Ok <==> found_at(
            document,
            names,
        ) is Some,
        found_at(document, names.drop_last()) matches Some(JsonView::Object(members)) ==> (patched(
            document,
            names,
            ProposalPatchOperation::Add,
            Some(Some(value)),
        ) is Ok <==> !members.contains_key(names.last())),
        patched(document, names, ProposalPatchOperation::Add, Some(Some(value))) is Ok ==> (
        found_at(document, names.drop_last()) matches Some(parent) && (parent is Object
            || parent is List)),
    decreases names.len(),
{
    reveal_with_fuel(found_at, 2);
    reveal_strlit("-");
    if names.len() > 1 {
        assert(names.skip(1).drop_last() =~= names.drop_last().skip(1));
        assert(names.skip(1).last() == names.last());
        assert(names.drop_last()[0] == names[0]);
        match document {
            JsonView::Object(members) => {
                if members.contains_key(names[0]) {
                    law_patches_follow_their_path(members[names[0]], names.skip(1), value);
                }
            },
            JsonView::List(items) => {
                if index_named(names[0]) is Some && index_named(names[0])->0 < items.len() {
                    law_patches_follow_their_path(
                        items[index_named(names[0])->0 as int],
                        names.skip(1),
                        value,
                    );
                }
            },
            _ => {},
        }
    } else {
        assert(names.skip(1).len() == 0);
        assert(names.drop_last().len() == 0);
        assert(names.last() == names[0]);
    }
}

/// A name as it stands in a path.
pub open spec fn escaped(name: Seq<char>) -> Seq<char>
    decreases name.len(),
{
    if name.len() == 0 {
        Seq::empty()
    } else {
        (if name[0] == '~' {
            seq!['~', '0']
        } else if name[0] == '/' {
            seq!['~', '1']
        } else {
            seq![name[0]]
        }) + escaped(name.skip(1))
    }
}

/// A name is read from a path as it was written there, and what is written
/// holds no slash.
pub proof fn law_names_are_read_as_written(name: Seq<char>)
    ensures
        unescaped(escaped(name)) == Some(name),
        !escaped(name).contains('/'),
    decreases name.len(),
{
    if name.len() == 0 {
        assert(escaped(name) =~= Seq::empty());
        assert(name =~= Seq::empty());
    } else {
        law_names_are_read_as_written(name.skip(1));
        let rest = escaped(name.skip(1));
        let whole = escaped(name);
        assert(!whole.contains('/')) by {
            if whole.contains('/') {
                let at = choose|at: int| 0 <= at < whole.len() && whole[at] == '/';
                let head: int = whole.len() - rest.len();
                if at >= head {
                    assert(rest[at - head] == '/');
                }
            }
        }
        if name[0] == '~' || name[0] == '/' {
            assert(whole.skip(2) =~= rest);
        } else {
            assert(whole.skip(1) =~= rest);
        }
        assert(seq![name[0]] + name.skip(1) =~= name);
    }
}

/// The tokens of a path in a row, with a slash between each two.
pub open spec fn with_slashes(tokens: Seq<Seq<char>>) -> Seq<char>
    decreases tokens.len(),
{
    if tokens.len() == 0 {
        Seq::empty()
    } else if tokens.len() == 1 {
        tokens[0]
    } else {
        with_slashes(tokens.drop_last()) + seq!['/'] + tokens.last()
    }
}

/// A path is cut at every slash and nowhere else: its tokens hold no slash, and
/// put together again they are the path.
pub proof fn law_path_is_cut_at_its_slashes(path: Seq<char>, index: int)
    ensures
        cut_at_slashes(path).len() > 0,
        with_slashes(cut_at_slashes(path)) == path,
        0 <= index < cut_at_slashes(path).len() ==> !cut_at_slashes(path)[index].contains('/'),
    decreases path.len(),
{
    let cut = cut_at_slashes(path);
    if path.len() == 0 {
        assert(with_slashes(cut) =~= path);
    } else {
        let earlier = cut_at_slashes(path.drop_last());
        law_path_is_cut_at_its_slashes(path.drop_last(), index);
        assert(path.drop_last().push(path.last()) =~= path);
        if path.last() == '/' {
            assert(cut.drop_last() =~= earlier);
            assert(with_slashes(cut) =~= path);
        } else {
            law_path_is_cut_at_its_slashes(path.drop_last(), earlier.len() - 1);
            assert(cut.drop_last() =~= earlier.drop_last());
            assert(cut.last() =~= earlier.last().push(path.last()));
            if earlier.len() > 1 {
                assert(with_slashes(earlier) == with_slashes(earlier.drop_last()) + seq!['/']
                    + earlier.last());
                assert(with_slashes(cut) =~= path);
            } else {
                assert(with_slashes(cut) =~= path);
            }
            if index == cut.len() - 1 && cut.last().contains('/') {
                let at = choose|at: int| 0 <= at < cut.last().len() && cut.last()[at] == '/';
                if at < earlier.last().len() {
                    assert(earlier.last()[at] == '/');
                }
            }
        }
    }
}

/// A number without a leading zero names the place that it reads as: a further
/// digit makes it ten times as large and adds the digit.
pub proof fn law_indices_are_decimal_numbers(token: Seq<char>, digit: char)
    requires
        '0' <= digit <= '9',
    ensures
        index_named(seq![digit]) == Some((digit as u32 - '0' as u32) as nat),
        index_named(token) matches Some(index) ==> (token[0] != '0' && 10 * index + (digit as u32
            - '0' as u32) <= usize::MAX ==> index_named(token.push(digit)) == Some(
            (10 * index + (digit as u32 - '0' as u32)) as nat,
        )),
        token.len() > 0 ==> index_named(seq!['0'] + token) is None,
        index_named(Seq::empty()) is None,
{
    let one = seq![digit];
    assert(index_digits(one) == one);
    assert(one.drop_last().len() == 0);
    assert(digits_value(one.drop_last()) == 0);
    assert(all_digits(one));
    if index_named(token) is Some && token[0] != '0' {
        let longer = token.push(digit);
        assert(longer[0] == token[0]);
        assert(index_digits(longer) =~= index_digits(token).push(digit));
        assert(index_digits(longer).drop_last() =~= index_digits(token));
        assert forall|i: int| 0 <= i < index_digits(longer).len() implies is_digit_char(
            #[trigger] index_digits(longer)[i],
        ) by {
            if i < index_digits(token).len() {
                assert(is_digit_char(index_digits(token)[i]));
            }
        }
        assert(all_digits(index_digits(longer)));
    }
    if token.len() > 0 {
        assert((seq!['0'] + token)[0] == '0');
    }
}

/// Patches are applied one after the other: those of two rows together do what
/// the second row does to the result of the first.
pub proof fn law_patches_are_applied_in_order(
    documents: DocumentsView,
    first: Seq<CatalogDeclarationPatch>,
    second: Seq<CatalogDeclarationPatch>,
)
    ensures
        documents.with_patches(first + second) == (match documents.with_patches(first) {
            Ok(between) => between.with_patches(second),
            Err(error) => Err(error),
        }),
    decreases first.len(),
{
    if first.len() == 0 {
        assert(first + second =~= second);
    } else {
        assert((first + second)[0] == first[0]);
        assert((first + second).skip(1) =~= first.skip(1) + second);
        match patch_result(documents.document(first[0].document), first[0]) {
            Ok(document) => {
                law_patches_are_applied_in_order(
                    documents.with_document(first[0].document, document),
                    first.skip(1),
                    second,
                );
            },
            Err(_) => {},
        }
    }
}

/// A document of the new version says so in its catalog, and is otherwise the
/// same document.
pub proof fn law_version_is_written_into_the_catalog(
    members: Map<Seq<char>, JsonView>,
    catalog: Map<Seq<char>, JsonView>,
    version: u64,
    other: Seq<char>,
)
    requires
        members.contains_key("catalog"@),
        members["catalog"@] == JsonView::Object(catalog),
    ensures
        with_version(JsonView::Object(members), version) matches Some(JsonView::Object(after)) && (
        after["catalog"@] matches JsonView::Object(now) && now.contains_key("catalog_version"@)
            && now["catalog_version"@] == JsonView::Number(decimal(version as nat)) && (other
            != "catalog_version"@ ==> (now.contains_key(other) <==> catalog.contains_key(other))
            && now[other] == catalog[other])) && (other != "catalog"@ ==> (after.contains_key(other)
            <==> members.contains_key(other)) && after[other] == members[other]),
{
}

/// A task made from a template has the new name, runs on its one instance
/// without overrides, and takes the priority and the weight that were given;
/// everything else is the template's.
pub proof fn law_made_task_is_the_template_renamed(
    template: Map<Seq<char>, JsonView>,
    instantiation: TaskTemplateInstantiation,
    other: Seq<char>,
)
    requires
        other != "id"@,
        other != "scope"@,
        other != "instance_overrides"@,
        other != "priority"@,
        other != "strategic_weight_milli"@,
        other != "feedback_stop"@,
    ensures
        made_task(template, instantiation) matches JsonView::Object(made) && made["id"@]
            == JsonView::Text(instantiation.new_task_id@) && made["scope"@] == instance_scope(
            instantiation.instance_id@,
        ) && made["instance_overrides"@] == JsonView::List(Seq::empty()) && (
        instantiation.priority matches Some(priority) ==> made["priority"@] == JsonView::Number(
            signed_decimal(priority as int),
        )) && (instantiation.priority is None ==> (made.contains_key("priority"@)
            <==> template.contains_key("priority"@)) && made["priority"@] == template["priority"@])
            && (instantiation.strategic_weight_milli matches Some(weight)
            ==> made["strategic_weight_milli"@] == JsonView::Number(signed_decimal(weight as int)))
            && (made.contains_key(other) <==> template.contains_key(other)) && made[other]
            == template[other],
{
    lemma_task_keys_differ();
}

proof fn lemma_task_keys_differ()
    ensures
        "id"@.len() == 2,
        "scope"@.len() == 5,
        "instance_overrides"@.len() == 18,
        "priority"@.len() == 8,
        "strategic_weight_milli"@.len() == 22,
        "feedback_stop"@.len() == 13,
{
    reveal_strlit("id");
    reveal_strlit("scope");
    reveal_strlit("instance_overrides");
    reveal_strlit("priority");
    reveal_strlit("strategic_weight_milli");
    reveal_strlit("feedback_stop");
}

/// A template can be instantiated exactly when it is there and the new name is
/// free.
pub proof fn law_instantiation_needs_a_template_and_a_free_name(
    members: Map<Seq<char>, JsonView>,
    tasks: Seq<JsonView>,
    instantiation: TaskTemplateInstantiation,
)
    requires
        members.contains_key("tasks"@),
        members["tasks"@] == JsonView::List(tasks),
    ensures
        with_made_task(JsonView::Object(members), instantiation) is Ok <==> (exists|i: int|
            0 <= i < tasks.len() && member_text(#[trigger] tasks[i], "id"@) == Some(
                instantiation.template_task_id@,
            )) && (forall|i: int|
            0 <= i < tasks.len() ==> member_text(#[trigger] tasks[i], "id"@) != Some(
                instantiation.new_task_id@,
            )),
{
    let wanted = task_is(instantiation.template_task_id@);
    let taken = task_is(instantiation.new_task_id@);
    lemma_position(tasks, wanted);
    lemma_position(tasks, taken);
    if first_position(tasks, taken) is None {
        assert forall|i: int| 0 <= i < tasks.len() implies member_text(#[trigger] tasks[i], "id"@)
            != Some(instantiation.new_task_id@) by {
            assert(!taken(tasks[i]));
        }
    } else {
        let at = first_position(tasks, taken)->0;
        assert(member_text(tasks[at], "id"@) == Some(instantiation.new_task_id@));
    }
    if first_position(tasks, wanted) is Some {
        let at = first_position(tasks, wanted)->0;
        assert(member_text(tasks[at], "id"@) == Some(instantiation.template_task_id@));
    } else {
        assert forall|i: int| 0 <= i < tasks.len() implies member_text(#[trigger] tasks[i], "id"@)
            != Some(instantiation.template_task_id@) by {
            assert(!wanted(tasks[i]));
        }
    }
}

/// All four documents take the new version, and only that of the tasks takes
/// anything else.
pub proof fn law_instantiation_moves_every_document(
    documents: DocumentsView,
    version: u64,
    instantiation: TaskTemplateInstantiation,
)
    ensures
        documents.with_instantiation(version, instantiation) matches Ok(after) ==> Some(after.pools)
            == with_version(documents.pools, version) && Some(after.activity) == with_version(
            documents.activity,
            version,
        ) && Some(after.timeline) == with_version(documents.timeline, version) && with_version(
            documents.tasks,
            version,
        ) is Some && Ok::<JsonView, RuntimeHostError>(after.tasks) == with_made_task(
            with_version(documents.tasks, version)->0,
            instantiation,
        ),
{
}

/// A proposal does what its kind says: an instantiation makes its task at the
/// target version, a diff applies its patches, and an extension of the language
/// leaves the documents as they are.
pub proof fn law_proposals_do_what_their_kind_says(
    documents: DocumentsView,
    proposal: CatalogProposal,
)
    ensures
        proposal.proposal is LanguageExtension ==> documents.with_proposal(proposal) == Ok::<
            DocumentsView,
            RuntimeHostError,
        >(documents),
        proposal.proposal matches ProposalKind::CatalogDiff { patches } ==> (patches@.len() == 0
            ==> documents.with_proposal(proposal) == Ok::<DocumentsView, RuntimeHostError>(
            documents,
        )) && (patches@.len() == 1 ==> documents.with_proposal(proposal) == (match changed_at(
            documents.document(patches@[0].document),
            patches@[0].path@,
            patches@[0].operation,
            patch_value(patches@[0]),
        ) {
            Ok(changed) => Ok(documents.with_document(patches@[0].document, changed)),
            Err(error) => Err(error),
        })),
        proposal.proposal matches ProposalKind::ParameterInstantiation { instantiation } ==> (
        documents.with_proposal(proposal) matches Ok(after) ==> Some(after.pools) == with_version(
            documents.pools,
            proposal.target_catalog_version,
        )),
{
    reveal_with_fuel(DocumentsView::with_patches, 2);
}

/// A path with a token that is empty or cannot be read changes nothing.
pub proof fn law_unreadable_paths_are_refused(
    document: JsonView,
    path: Seq<char>,
    operation: ProposalPatchOperation,
    value: Option<Option<JsonView>>,
    index: int,
)
    requires
        1 <= index < cut_at_slashes(path).len(),
        cut_at_slashes(path)[index].len() == 0 || unescaped(cut_at_slashes(path)[index]) is None,
    ensures
        changed_at(document, path, operation, value) is Err,
{
    assert(path_tokens(path)[index - 1] == cut_at_slashes(path)[index]);
    assert(!token_readable(path_tokens(path)[index - 1]));
}

} // verus!
