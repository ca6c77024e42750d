//! The headers of answers to clients.

use axum::http::HeaderMap;
use axum::http::HeaderValue;
use vstd::prelude::*;
use vstd::string::*;

use crate::errors::ApiError;
use crate::errors::ApiErrorView;
use crate::headers;
use crate::request_headers::Contents;
use crate::text;
use crate::upstream;

verus! {

/// The header with the id of the account that a request went to.
pub const SELECTED_ACCOUNT_ID_HEADER: &'static str = "x-openai-codex-proxy-account-id";

/// The header with the score of the account that a request went to.
pub const SELECTED_ACCOUNT_SCORE_HEADER: &'static str = "x-openai-codex-proxy-account-score";

/// How many headers are added to those of an answer.
pub const ADDED_HEADERS: usize = 3;

/// A header of the upstream's answer that is not passed on.
pub open spec fn dropped(name: Seq<char>) -> bool {
    name == "content-length"@ || name == "connection"@
}

/// The values that are not empty.
pub open spec fn nonempty(values: Seq<Seq<u8>>) -> Seq<Seq<u8>>
    decreases values.len(),
{
    if values.len() == 0 {
        Seq::empty()
    } else if values.last().len() > 0 {
        nonempty(values.drop_last()).push(values.last())
    } else {
        nonempty(values.drop_last())
    }
}

/// The headers of the upstream's answer that are passed on.
pub open spec fn relayed(contents: Contents) -> Contents {
    Map::new(
        |name: Seq<char>|
            contents.contains_key(name) && !dropped(name) && nonempty(contents[name]).len() > 0,
        |name: Seq<char>| nonempty(contents[name]),
    )
}

/// The headers of the answer to the client. Where the upstream does not tell the type of its answer,
/// it comes bit by bit.
pub open spec fn answered(contents: Contents, account_id: Seq<char>, score: int) -> Contents {
    let passed = relayed(contents);
    let typed = if passed.contains_key("content-type"@) {
        passed
    } else {
        headers::appended(
            passed,
            "content-type"@,
            headers::as_bytes(upstream::EVENT_STREAM@),
        )
    };
    let told = headers::appended(
        typed,
        SELECTED_ACCOUNT_ID_HEADER@,
        headers::as_bytes(account_id),
    );
    headers::appended(
        told,
        SELECTED_ACCOUNT_SCORE_HEADER@,
        headers::as_bytes(text::int_text(score)),
    )
}

/// The error of an answer that cannot be built.
pub open spec fn unanswered(message: Seq<char>) -> ApiErrorView {
    ApiErrorView::Internal("failed to build downstream response: "@ + message)
}

/// The headers of the answer to the client, or why they cannot be built.
pub open spec fn downstream_headers_of(
    contents: Contents,
    account_id: Seq<char>,
    score: int,
) -> Result<Contents, ApiErrorView> {
    if headers::is_value(headers::as_bytes(account_id)) {
        Ok(answered(contents, account_id, score))
    } else {
        Err(unanswered(headers::BAD_VALUE@))
    }
}

/// There is room for the headers that are added to those of an answer.
pub open spec fn has_room(contents: Contents) -> bool {
    contents.dom().len() + ADDED_HEADERS <= headers::ALWAYS_ROOM
}

/// `r` is what the headers of an answer come to. Where the upstream's answer has very many headers,
/// there may be no room for them.
pub open spec fn answers(
    r: Result<HeaderMap<HeaderValue>, ApiError>,
    contents: Contents,
    account_id: Seq<char>,
    score: int,
) -> bool {
    ||| upstream::headers_are(r, downstream_headers_of(contents, account_id, score))
    ||| !has_room(contents) && r is Err && r->Err_0@ == unanswered(headers::MAP_FULL@)
}

fn unanswered_error(message: &str) -> (err: ApiError)
    ensures
        err@ == unanswered(message@),
{
    ApiError::Internal("failed to build downstream response: ".to_string().concat(message))
}

proof fn lemma_appended_room(contents: Contents, name: Seq<char>, value: Seq<u8>)
    requires
        contents.dom().finite(),
    ensures
        headers::appended(contents, name, value).dom().finite(),
        headers::appended(contents, name, value).dom().len() <= contents.dom().len() + 1,
{
    assert(headers::appended(contents, name, value).dom() =~= contents.dom().insert(name));
}

proof fn lemma_nonempty_grow(
    entries: Seq<(axum::http::HeaderName, HeaderValue)>,
    k: int,
    name: Seq<char>,
)
    requires
        0 <= k <= entries.len(),
        nonempty(headers::values_of(entries.take(k), name)).len() > 0,
    ensures
        headers::values_of(entries, name).len() > 0,
{
    upstream::lemma_values_grow(entries, k, name);
}

/// The headers of the upstream's answer that are passed on.
fn relay(response_headers: &HeaderMap<HeaderValue>) -> (r: Result<HeaderMap<HeaderValue>, String>)
    ensures
        match r {
            Ok(headers) => headers::header_contents(headers) == relayed(
                headers::header_contents(*response_headers),
            ),
            Err(message) => message@ == headers::MAP_FULL@ && !has_room(
                headers::header_contents(*response_headers),
            ),
        },
        headers::header_contents(*response_headers).dom().finite(),
{
    let ghost from = headers::header_contents(*response_headers);
    let entries = headers::entries(response_headers);
    let mut r = headers::no_headers();
    let ghost all = entries@;
    for entry in it: entries
        invariant
            it.seq() == all,
            headers::lists_contents(all, from),
            from == headers::header_contents(*response_headers),
            forall|name: Seq<char>|
                #![trigger headers::header_contents(r).contains_key(name)]
                headers::header_contents(r).contains_key(name) <==> !dropped(name) && nonempty(
                    headers::values_of(all.take(it.index()), name),
                ).len() > 0,
            forall|name: Seq<char>|
                #![trigger headers::header_contents(r)[name]]
                headers::header_contents(r).contains_key(name) ==> headers::header_contents(r)[name]
                    == nonempty(headers::values_of(all.take(it.index()), name)),
    {
        let ghost k = it.index();
        let ghost before = headers::header_contents(r);
        assert(all.take(k + 1).drop_last() =~= all.take(k));
        let (name, value) = entry;
        let ghost text = headers::name_text(name);
        let ghost bytes = headers::value_bytes(value);
        proof {
            assert forall|n: Seq<char>| #[trigger] before.contains_key(
                n,
            ) implies from.contains_key(n) by {
                lemma_nonempty_grow(all, k, n);
            }
            upstream::lemma_within(before, from);
            let old_values = headers::values_of(all.take(k), text);
            let new_values = headers::values_of(all.take(k + 1), text);
            assert(new_values.drop_last() =~= old_values);
            if old_values.len() == 0 {
                assert(nonempty(old_values) =~= Seq::empty());
            }
        }
        let drop_it = {
            let s = headers::name_str(&name);
            text::same(s, "content-length") || text::same(s, "connection")
        };
        if !drop_it && !headers::is_empty_value(&value) {
            match headers::append(&mut r, name, value) {
                Ok(_) => {
                    proof {
                        if !before.contains_key(text) {
                            assert(nonempty(headers::values_of(all.take(k), text)) =~= Seq::empty());
                            assert(Seq::<Seq<u8>>::empty().push(bytes) =~= seq![bytes]);
                        }
                    }
                },
                Err(message) => {
                    return Err(message);
                },
            }
        }
    }
    proof {
        assert(all.take(all.len() as int) =~= all);
        let contents = headers::header_contents(r);
        assert forall|n: Seq<char>| #[trigger] contents.dom().contains(n) <==> relayed(
            from,
        ).dom().contains(n) by {
            assert(contents.contains_key(n) == contents.dom().contains(n));
            assert(from.contains_key(n) ==> from[n] == headers::values_of(all, n));
            if !from.contains_key(n) {
                assert(headers::values_of(all, n).len() == 0);
            }
        }
        assert forall|n: Seq<char>| #[trigger] contents.dom().contains(n) implies contents[n]
            == relayed(from)[n] by {
            assert(contents.contains_key(n));
            assert(from.contains_key(n) ==> from[n] == headers::values_of(all, n));
        }
        assert(contents =~= relayed(from));
    }
    Ok(r)
}

proof fn lemma_names()
    ensures
        upstream::is_plain_name("content-type"@),
        headers::is_name(SELECTED_ACCOUNT_ID_HEADER@),
        headers::is_name(SELECTED_ACCOUNT_SCORE_HEADER@),
        headers::is_readable(headers::as_bytes("text/event-stream"@)),
{
    reveal_strlit("content-type");
    assert(text::lowered("content-type"@) =~= "content-type"@);
    reveal_strlit("x-openai-codex-proxy-account-id");
    reveal_strlit("x-openai-codex-proxy-account-score");
    reveal_strlit("text/event-stream");
    headers::lemma_plain("text/event-stream"@);
}

/// The decimal notation of an integer is plain text.
proof fn lemma_number_is_plain(i: int)
    ensures
        headers::is_plain(text::int_text(i)),
{
    if i < 0 {
        lemma_decimal_is_plain((-i) as nat);
    } else {
        lemma_decimal_is_plain(i as nat);
    }
}

proof fn lemma_decimal_is_plain(n: nat)
    ensures
        headers::is_plain(text::decimal(n)),
    decreases n,
{
    if n >= 10 {
        lemma_decimal_is_plain(n / 10);
    }
}

/// The headers of the answer to the client: those of the upstream's answer that are passed on, and
/// which account the request went to.
pub fn downstream_headers(
    response_headers: &HeaderMap<HeaderValue>,
    account_id: &str,
    score: i32,
) -> (r: Result<HeaderMap<HeaderValue>, ApiError>)
    ensures
        answers(r, headers::header_contents(*response_headers), account_id@, score as int),
{
    let ghost from = headers::header_contents(*response_headers);
    let mut answer = match relay(response_headers) {
        Ok(answer) => answer,
        Err(message) => {
            return Err(unanswered_error(message.as_str()));
        },
    };
    let ghost passed = relayed(from);
    proof {
        lemma_names();
        lemma_number_is_plain(score as int);
        headers::lemma_plain(text::int_text(score as int));
        assert forall|n: Seq<char>| #[trigger] passed.contains_key(n) implies from.contains_key(
            n,
        ) by {}
        upstream::lemma_within(passed, from);
        assert(upstream::solid(passed));
    }
    if headers::get(&answer, "content-type").is_none() {
        proof {
            lemma_appended_room(
                passed,
                "content-type"@,
                headers::as_bytes(upstream::EVENT_STREAM@),
            );
        }
        match headers::append(
            &mut answer,
            headers::static_name("content-type"),
            headers::static_value(upstream::EVENT_STREAM),
        ) {
            Ok(_) => {},
            Err(message) => {
                return Err(unanswered_error(message.as_str()));
            },
        }
    }
    let id = match headers::value_from_str(account_id) {
        Ok(id) => id,
        Err(message) => {
            return Err(unanswered_error(message.as_str()));
        },
    };
    proof {
        lemma_appended_room(
            headers::header_contents(answer),
            SELECTED_ACCOUNT_ID_HEADER@,
            headers::value_bytes(id),
        );
    }
    match headers::append(&mut answer, headers::static_name(SELECTED_ACCOUNT_ID_HEADER), id) {
        Ok(_) => {},
        Err(message) => {
            return Err(unanswered_error(message.as_str()));
        },
    }
    let number = text::int_string(score as i64);
    let told = match headers::value_from_str(number.as_str()) {
        Ok(told) => told,
        Err(message) => {
            return Err(unanswered_error(message.as_str()));
        },
    };
    match headers::append(&mut answer, headers::static_name(SELECTED_ACCOUNT_SCORE_HEADER), told) {
        Ok(_) => {},
        Err(message) => {
            return Err(unanswered_error(message.as_str()));
        },
    }
    Ok(answer)
}

proof fn lemma_names_differ()
    ensures
        "connection"@.len() == 10,
        "content-type"@.len() == 12,
        "content-length"@.len() == 14,
        SELECTED_ACCOUNT_ID_HEADER@.len() == 31,
        SELECTED_ACCOUNT_SCORE_HEADER@.len() == 34,
{
    reveal_strlit("connection");
    reveal_strlit("content-type");
    reveal_strlit("content-length");
    reveal_strlit("x-openai-codex-proxy-account-id");
    reveal_strlit("x-openai-codex-proxy-account-score");
}

/// The answer to the client tells its type, and the account that the request went to with its score.
/// It tells neither the length of the upstream's answer nor what belongs to one connection.
pub proof fn law_answer_names_the_account(contents: Contents, account_id: Seq<char>, score: int)
    ensures
        downstream_headers_of(contents, account_id, score) matches Ok(told) ==> {
            &&& told.contains_key("content-type"@)
            &&& told.contains_key(SELECTED_ACCOUNT_ID_HEADER@)
            &&& told[SELECTED_ACCOUNT_ID_HEADER@].last() == headers::as_bytes(account_id)
            &&& told.contains_key(SELECTED_ACCOUNT_SCORE_HEADER@)
            &&& told[SELECTED_ACCOUNT_SCORE_HEADER@].last() == headers::as_bytes(
                text::int_text(score),
            )
            &&& !told.contains_key("content-length"@)
            &&& !told.contains_key("connection"@)
        },
{
    lemma_names_differ();
}

/// Every other header of the upstream's answer gets to the client, with its values that are not empty.
pub proof fn law_other_headers_are_relayed(
    contents: Contents,
    account_id: Seq<char>,
    score: int,
    name: Seq<char>,
)
    requires
        contents.contains_key(name),
        nonempty(contents[name]).len() > 0,
        !dropped(name),
        name != SELECTED_ACCOUNT_ID_HEADER@,
        name != SELECTED_ACCOUNT_SCORE_HEADER@,
    ensures
        downstream_headers_of(contents, account_id, score) matches Ok(told) ==> {
            &&& told.contains_key(name)
            &&& told[name] == nonempty(contents[name])
        },
{
    assert(relayed(contents).contains_key(name));
}

proof fn lemma_nonempty(values: Seq<Seq<u8>>)
    ensures
        nonempty(values) == values.filter(|v: Seq<u8>| v.len() > 0),
    decreases values.len(),
{
    reveal(Seq::filter);
    if values.len() > 0 {
        lemma_nonempty(values.drop_last());
    }
}

/// Every header of the upstream's answer but its length and its connection gets to the client, with all
/// its values that are not empty, in their order, and none is made up but the type of the answer and
/// the two that tell the account.
pub proof fn law_all_but_two_headers_are_relayed(
    contents: Contents,
    account_id: Seq<char>,
    score: int,
    name: Seq<char>,
)
    requires
        name != "content-length"@,
        name != "connection"@,
        name != "x-openai-codex-proxy-account-id"@,
        name != "x-openai-codex-proxy-account-score"@,
    ensures
        downstream_headers_of(contents, account_id, score) matches Ok(told) ==> {
            let kept = if contents.contains_key(name) {
                contents[name].filter(|v: Seq<u8>| v.len() > 0)
            } else {
                Seq::empty()
            };
            &&& kept.len() > 0 ==> told.contains_key(name) && told[name] == kept
            &&& kept.len() == 0 && name != "content-type"@ ==> !told.contains_key(name)
            &&& kept.len() == 0 && name == "content-type"@ ==> told.contains_key(name)
                && told[name] == seq![headers::as_bytes("text/event-stream"@)]
        },
{
    lemma_names_differ();
    if contents.contains_key(name) {
        lemma_nonempty(contents[name]);
    }
    let kept = relayed(contents);
    assert(kept.contains_key(name) <==> contents.contains_key(name) && nonempty(
        contents[name],
    ).len() > 0);
}

/// The client is told the id and the score of the account that its request went to, after whatever the
/// upstream told under those names. That fails exactly if the id cannot be the value of a header.
pub proof fn law_account_is_told(contents: Contents, account_id: Seq<char>, score: int)
    ensures
        downstream_headers_of(contents, account_id, score) is Ok <==> headers::is_value(
            headers::as_bytes(account_id),
        ),
        downstream_headers_of(contents, account_id, score) matches Ok(told) ==> {
            &&& !contents.contains_key("x-openai-codex-proxy-account-id"@)
                ==> told["x-openai-codex-proxy-account-id"@] == seq![headers::as_bytes(account_id)]
            &&& !contents.contains_key("x-openai-codex-proxy-account-score"@)
                ==> told["x-openai-codex-proxy-account-score"@] == seq![
                headers::as_bytes(text::int_text(score)),
            ]
            &&& told["x-openai-codex-proxy-account-id"@].last() == headers::as_bytes(account_id)
            &&& told["x-openai-codex-proxy-account-score"@].last() == headers::as_bytes(
                text::int_text(score),
            )
            &&& !told.contains_key("content-length"@)
            &&& !told.contains_key("connection"@)
        },
{
    lemma_names_differ();
    law_answer_names_the_account(contents, account_id, score);
}

/// The headers that are built for the client name the account and its score, and hold all of the
/// upstream's but for those of the connection and the length, without the empty values.
pub proof fn law_building_downstream_headers(
    response_headers: &HeaderMap<HeaderValue>,
    account_id: &str,
    score: i32,
    r: Result<HeaderMap<HeaderValue>, ApiError>,
    name: Seq<char>,
)
    requires
        call_ensures(downstream_headers, (response_headers, account_id, score), r),
    ensures
        r is Ok ==> headers::is_value(headers::as_bytes(account_id@)),
        headers::is_value(headers::as_bytes(account_id@)) && has_room(
            headers::header_contents(*response_headers),
        ) ==> r is Ok,
        r matches Ok(built) ==> {
            let received = headers::header_contents(*response_headers);
            let told = headers::header_contents(built);
            let kept = received[name].filter(|v: Seq<u8>| v.len() > 0);
            &&& told["x-openai-codex-proxy-account-id"@].last() == headers::as_bytes(account_id@)
            &&& told["x-openai-codex-proxy-account-score"@].last() == headers::as_bytes(
                text::int_text(score as int),
            )
            &&& !told.contains_key("content-length"@)
            &&& !told.contains_key("connection"@)
            &&& received.contains_key(name) && kept.len() > 0 && name != "content-length"@ && name
                != "connection"@ && name != "x-openai-codex-proxy-account-id"@ && name
                != "x-openai-codex-proxy-account-score"@ ==> told.contains_key(name) && told[name]
                == kept
        },
{
    let received = headers::header_contents(*response_headers);
    law_account_is_told(received, account_id@, score as int);
    if name != "content-length"@ && name != "connection"@ && name
        != "x-openai-codex-proxy-account-id"@ && name != "x-openai-codex-proxy-account-score"@ {
        law_all_but_two_headers_are_relayed(received, account_id@, score as int, name);
    }
}

/// Where the upstream's answer has the headers that tell of the account itself, its values stay, and the
/// account and its score come after them.
pub proof fn law_told_values_are_kept(contents: Contents, account_id: Seq<char>, score: int)
    ensures
        downstream_headers_of(contents, account_id, score) matches Ok(told) ==> {
            let ids = contents["x-openai-codex-proxy-account-id"@].filter(
                |v: Seq<u8>| v.len() > 0,
            );
            let scores = contents["x-openai-codex-proxy-account-score"@].filter(
                |v: Seq<u8>| v.len() > 0,
            );
            &&& contents.contains_key("x-openai-codex-proxy-account-id"@)
                ==> told["x-openai-codex-proxy-account-id"@] == ids + seq![
                headers::as_bytes(account_id),
            ]
            &&& contents.contains_key("x-openai-codex-proxy-account-score"@)
                ==> told["x-openai-codex-proxy-account-score"@] == scores + seq![
                headers::as_bytes(text::int_text(score)),
            ]
        },
{
    lemma_names_differ();
    lemma_nonempty(contents["x-openai-codex-proxy-account-id"@]);
    lemma_nonempty(contents["x-openai-codex-proxy-account-score"@]);
    if let Ok(told) = downstream_headers_of(contents, account_id, score) {
        let ids = nonempty(contents["x-openai-codex-proxy-account-id"@]);
        let scores = nonempty(contents["x-openai-codex-proxy-account-score"@]);
        if contents.contains_key("x-openai-codex-proxy-account-id"@) {
            assert(told["x-openai-codex-proxy-account-id"@] =~= ids + seq![
                headers::as_bytes(account_id),
            ]);
        }
        if contents.contains_key("x-openai-codex-proxy-account-score"@) {
            assert(told["x-openai-codex-proxy-account-score"@] =~= scores + seq![
                headers::as_bytes(text::int_text(score)),
            ]);
        }
    }
}

} // verus!
