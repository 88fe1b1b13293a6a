//! Requests for the records of a resource, and what their answers mean.
//!
//! A resource is reached under a path. Listing, reading, creating, changing
//! and removing its records are requests under that path; the functions
//! here say which request each of them is, and read the answers where an
//! answer decides what follows. Sending is left to the caller.

use crate::client::build_url;
use crate::client::full_url;
use crate::errors::ClientResponseError;
use crate::errors::message_body;
use crate::errors::message_value;
use crate::json::as_array;
use crate::json::as_i64;
use crate::json::bool_value;
use crate::json::integer_value;
use crate::json::json_as_array;
use crate::json::json_as_i64;
use crate::json::json_bool;
use crate::json::json_integer;
use crate::json::json_is_null;
use crate::json::json_member;
use crate::json::json_object;
use crate::json::json_string;
use crate::json::member;
use crate::json::new_object;
use crate::json::no_entries;
use crate::json::null_value;
use crate::json::object_insert;
use crate::json::object_value;
use crate::json::string_value;
use crate::request::FileAttachment;
use crate::request::SendOptions;
use crate::text::chars_of;
use crate::utils::encode_path_segment;
use crate::utils::query_view;
use crate::utils::url_encoded;
use serde_json::Value;
use vstd::prelude::*;

verus! {

/// A request that is ready to be sent: the path and the options.
#[derive(Debug, Clone)]
pub struct Request {
    pub path: String,
    pub options: SendOptions,
}

/// The query with a parameter set: whatever stood under the key is gone,
/// and the new pair stands last.
pub open spec fn query_with(query: Seq<(Seq<char>, Value)>, key: Seq<char>, value: Value) -> Seq<
    (Seq<char>, Value),
> {
    query.filter(|p: (Seq<char>, Value)| p.0 != key).push((key, value))
}

/// The query with a text parameter set, where the text is given.
pub open spec fn query_with_text(
    query: Seq<(Seq<char>, Value)>,
    key: Seq<char>,
    text: Option<Seq<char>>,
) -> Seq<(Seq<char>, Value)> {
    match text {
        Some(t) => query_with(query, key, json_string(t)),
        None => query,
    }
}

/// An optional string as characters.
pub open spec fn text_view(s: Option<String>) -> Option<Seq<char>> {
    match s {
        Some(t) => Some(t@),
        None => None,
    }
}

/// The query of a listing: page, page size and whether the total is
/// skipped, then filter, sort, expand and fields where given.
pub open spec fn list_query(
    query: Seq<(Seq<char>, Value)>,
    page: i32,
    per_page: i32,
    skip_total: bool,
    filter: Option<Seq<char>>,
    sort: Option<Seq<char>>,
    expand: Option<Seq<char>>,
    fields: Option<Seq<char>>,
) -> Seq<(Seq<char>, Value)> {
    let paged = query_with(
        query_with(
            query_with(query, "page"@, json_integer(page as i64)),
            "perPage"@,
            json_integer(per_page as i64),
        ),
        "skipTotal"@,
        json_bool(skip_total),
    );
    query_with_text(
        query_with_text(
            query_with_text(query_with_text(paged, "filter"@, filter), "sort"@, sort),
            "expand"@,
            expand,
        ),
        "fields"@,
        fields,
    )
}

/// The query of a request for one record: expand and fields where given.
pub open spec fn item_query(
    query: Seq<(Seq<char>, Value)>,
    expand: Option<Seq<char>>,
    fields: Option<Seq<char>>,
) -> Seq<(Seq<char>, Value)> {
    query_with_text(query_with_text(query, "expand"@, expand), "fields"@, fields)
}

/// The path of one record under the path of its resource.
pub open spec fn item_path(crud_path: Seq<char>, record_id: Seq<char>) -> Seq<char> {
    crud_path + seq!['/'] + url_encoded(record_id)
}

/// The body of an error that carries a code, a message and no data.
pub open spec fn code_body(code: i64, message: Seq<char>) -> Value {
    json_object(
        no_entries().insert("code"@, json_integer(code)).insert(
            "message"@,
            json_string(message),
        ).insert("data"@, json_object(no_entries())),
    )
}

/// Whether a request is exactly the given one, with nothing else attached.
pub open spec fn is_request(
    r: Request,
    path: Seq<char>,
    method: Seq<char>,
    query: Seq<(Seq<char>, Value)>,
    headers: Vec<(String, String)>,
) -> bool {
    &&& r.path@ == path
    &&& r.options.method@ == method
    &&& query_view(r.options.query@) == query
    &&& r.options.headers == headers
    &&& r.options.timeout is None
}

/// Sets a parameter of a query: whatever stood under the key goes, and the
/// new pair stands last.
pub fn set_param(query: Vec<(String, Value)>, key: &str, value: Value) -> (r: Vec<(String, Value)>)
    ensures
        query_view(r@) == query_with(query_view(query@), key@, value),
{
    let mut rest = query;
    let mut out: Vec<(String, Value)> = Vec::new();
    let ghost orig = query_view(rest@);
    let total = rest.len();
    let mut done: usize = 0;
    let wanted = key.to_owned();
    let ghost keep = |p: (Seq<char>, Value)| p.0 != key@;
    proof {
        assert(orig.take(0) =~= Seq::empty());
        assert(query_view(out@) =~= Seq::empty());
    }
    while rest.len() > 0
        invariant
            done + rest@.len() == orig.len(),
            orig.len() == total,
            wanted@ == key@,
            keep == |p: (Seq<char>, Value)| p.0 != key@,
            query_view(rest@) == orig.skip(done as int),
            query_view(out@) == orig.take(done as int).filter(keep),
        decreases rest@.len(),
    {
        let ghost before = query_view(out@);
        let ghost rest_before = query_view(rest@);
        let pair = rest.remove(0);
        proof {
            let next = orig.take(done as int + 1);
            assert(next.drop_last() =~= orig.take(done as int));
            assert(rest_before[0] == orig[done as int]);
            assert(next.last() == (pair.0@, pair.1));
            assert(query_view(rest@) =~= orig.skip(done as int + 1)) by {
                assert forall|j: int| 0 <= j < rest@.len() implies query_view(rest@)[j]
                    == orig.skip(done as int + 1)[j] by {
                    assert(query_view(rest@)[j] == rest_before[j + 1]);
                }
            }
            reveal(Seq::filter);
        }
        if pair.0 != wanted {
            let ghost kept = (pair.0@, pair.1);
            out.push(pair);
            proof {
                assert(query_view(out@) =~= before.push(kept));
            }
        }
        done += 1;
    }
    proof {
        assert(orig.take(orig.len() as int) =~= orig);
    }
    let ghost filtered = query_view(out@);
    out.push((wanted, value));
    proof {
        assert(query_view(out@) =~= filtered.push((key@, value)));
    }
    out
}

/// Sets a text parameter of a query, where the text is given.
pub fn set_text_param(query: Vec<(String, Value)>, key: &str, text: Option<String>) -> (r: Vec<(String, Value)>)
    ensures
        query_view(r@) == query_with_text(query_view(query@), key@, text_view(text)),
{
    match text {
        Some(t) => set_param(query, key, string_value(t)),
        None => query,
    }
}

/// Builds the body of an error that carries a code, a message and no data.
pub fn code_value(code: i64, message: &str) -> (r: Value)
    ensures
        r == code_body(code, message@),
{
    let mut body = new_object();
    object_insert(&mut body, "code".to_owned(), integer_value(code));
    object_insert(&mut body, "message".to_owned(), string_value(message.to_owned()));
    object_insert(&mut body, "data".to_owned(), object_value(new_object()));
    object_value(body)
}

/// Whether an error says that something was not found: status 404, with
/// the code and the message in its body.
pub open spec fn is_not_found(e: ClientResponseError, url: Seq<char>, message: Seq<char>) -> bool {
    &&& e.url@ == url
    &&& e.status == 404
    &&& e.response == code_body(404, message)
    &&& !e.is_abort
    &&& e.original_error is None
}

/// Whether an error says that the batch size is not positive.
pub open spec fn is_batch_error(e: ClientResponseError) -> bool {
    &&& e.url@.len() == 0
    &&& e.status == 400
    &&& e.response == message_body("batch must be > 0"@)
    &&& !e.is_abort
    &&& e.original_error is None
}

/// The items of a page: the array under `items`, or nothing.
pub open spec fn page_items(data: Value) -> Seq<Value> {
    match json_member(data, "items"@) {
        Some(v) => match json_as_array(v) {
            Some(items) => items,
            None => Seq::empty(),
        },
        None => Seq::empty(),
    }
}

/// The page size that an answer reports under `perPage`, or the one asked
/// for where it reports none.
pub open spec fn page_size(data: Value, batch: i32) -> i64 {
    match json_member(data, "perPage"@) {
        Some(v) => match json_as_i64(v) {
            Some(n) => n,
            None => batch as i64,
        },
        None => batch as i64,
    }
}

/// Whether a page is the last one: it has no item, or fewer than a page holds.
pub open spec fn is_last_page(data: Value, batch: i32) -> bool {
    page_items(data).len() == 0 || page_items(data).len() < page_size(data, batch)
}

/// The items of a page of a listing.
pub fn items_of(data: &Value) -> (r: Vec<Value>)
    ensures
        r@ == page_items(*data),
{
    let mut out: Vec<Value> = Vec::new();
    match member(data, "items") {
        Some(v) => match as_array(v) {
            Some(items) => {
                let mut i: usize = 0;
                while i < items.len()
                    invariant
                        i <= items.len(),
                        out@ == items@.take(i as int),
                    decreases items.len() - i,
                {
                    out.push(items[i].clone());
                    proof {
                        assert(out@ =~= items@.take(i as int + 1));
                    }
                    i += 1;
                }
                proof {
                    assert(items@.take(items.len() as int) =~= items@);
                }
            },
            None => {},
        },
        None => {},
    }
    out
}

/// The first item of a listing, or the error that nothing was found.
pub fn first_list_item(data: &Value) -> (r: Result<Value, ClientResponseError>)
    ensures
        page_items(*data).len() > 0 ==> r == Ok::<Value, ClientResponseError>(page_items(*data)[0]),
        page_items(*data).len() == 0 ==> r is Err && is_not_found(
            r->Err_0,
            Seq::empty(),
            "The requested resource wasn't found."@,
        ),
{
    let mut items = items_of(data);
    if items.len() > 0 {
        Ok(items.swap_remove(0))
    } else {
        Err(
            ClientResponseError::new(
                String::new(),
                404,
                code_value(404, "The requested resource wasn't found."),
                false,
                None,
            ),
        )
    }
}

/// Whether the page that an answer holds is the last one of a listing
/// that asks for `batch` items a page.
pub fn page_is_last(data: &Value, batch: i32) -> (r: bool)
    ensures
        r == is_last_page(*data, batch),
{
    let items = items_of(data);
    let per_page: i64 = match member(data, "perPage") {
        Some(v) => match as_i64(v) {
            Some(n) => n,
            None => batch as i64,
        },
        None => batch as i64,
    };
    if items.len() == 0 {
        true
    } else if per_page <= 0 {
        false
    } else {
        (items.len() as u64) < (per_page as u64)
    }
}

/// The requests for the records of one resource.
#[derive(Debug, Clone)]
pub struct BaseCrudService {
    crud_path: String,
}

impl View for BaseCrudService {
    type V = Seq<char>;

    closed spec fn view(&self) -> Seq<char> {
        self.crud_path@
    }
}

impl BaseCrudService {
    /// The requests for the resource under the given path.
    pub fn new(crud_path: String) -> (r: Self)
        ensures
            r@ == crud_path@,
    {
        BaseCrudService { crud_path }
    }

    /// The path of the resource.
    pub fn base_crud_path(&self) -> (r: &str)
        ensures
            r@ == self@,
    {
        self.crud_path.as_str()
    }

    fn item(&self, record_id: &str) -> (r: String)
        ensures
            r@ == item_path(self@, record_id@),
    {
        let mut path = self.crud_path.clone();
        proof {
            reveal_strlit("/");
            assert("/"@ =~= seq!['/']);
        }
        path.append("/");
        path.append(encode_path_segment(record_id).as_str());
        path
    }

    /// The request for one page of the records.
    pub fn get_list(
        &self,
        page: i32,
        per_page: i32,
        skip_total: bool,
        query: Vec<(String, Value)>,
        headers: Vec<(String, String)>,
        filter: Option<String>,
        sort: Option<String>,
        expand: Option<String>,
        fields: Option<String>,
    ) -> (r: Request)
        ensures
            is_request(
                r,
                self@,
                "GET"@,
                list_query(
                    query_view(query@),
                    page,
                    per_page,
                    skip_total,
                    text_view(filter),
                    text_view(sort),
                    text_view(expand),
                    text_view(fields),
                ),
                headers,
            ),
            json_is_null(r.options.body),
            r.options.files@.len() == 0,
    {
        let params = set_param(query, "page", integer_value(page as i64));
        let params = set_param(params, "perPage", integer_value(per_page as i64));
        let params = set_param(params, "skipTotal", bool_value(skip_total));
        let params = set_text_param(params, "filter", filter);
        let params = set_text_param(params, "sort", sort);
        let params = set_text_param(params, "expand", expand);
        let params = set_text_param(params, "fields", fields);
        Request {
            path: self.crud_path.clone(),
            options: SendOptions {
                method: "GET".to_owned(),
                headers,
                query: params,
                body: null_value(),
                files: Vec::new(),
                timeout: None,
            },
        }
    }

    /// The request for one record. A record without an identifier is not
    /// asked for: the caller gets the error that the identifier is missing,
    /// with the URL of the resource under `base_url`.
    pub fn get_one(
        &self,
        base_url: &str,
        record_id: &str,
        query: Vec<(String, Value)>,
        headers: Vec<(String, String)>,
        expand: Option<String>,
        fields: Option<String>,
    ) -> (r: Result<Request, ClientResponseError>)
        ensures
            record_id@.len() == 0 ==> r is Err && is_not_found(
                r->Err_0,
                full_url(base_url@, self@ + seq!['/'], query_view(query@)),
                "Missing required record id."@,
            ),
            record_id@.len() > 0 ==> r is Ok && is_request(
                r->Ok_0,
                item_path(self@, record_id@),
                "GET"@,
                item_query(query_view(query@), text_view(expand), text_view(fields)),
                headers,
            ) && json_is_null(r->Ok_0.options.body) && r->Ok_0.options.files@.len() == 0,
    {
        if chars_of(record_id).len() == 0 {
            let mut path = self.crud_path.clone();
            proof {
                reveal_strlit("/");
                assert("/"@ =~= seq!['/']);
            }
            path.append("/");
            return Err(
                ClientResponseError::new(
                    build_url(base_url, path.as_str(), &query),
                    404,
                    code_value(404, "Missing required record id."),
                    false,
                    None,
                ),
            );
        }
        let params = set_text_param(query, "expand", expand);
        let params = set_text_param(params, "fields", fields);
        Ok(
            Request {
                path: self.item(record_id),
                options: SendOptions {
                    method: "GET".to_owned(),
                    headers,
                    query: params,
                    body: null_value(),
                    files: Vec::new(),
                    timeout: None,
                },
            },
        )
    }

    /// The request for the first record that a filter lets through: the
    /// first page of a listing with one item a page and no total.
    pub fn get_first_list_item(
        &self,
        filter: String,
        query: Vec<(String, Value)>,
        headers: Vec<(String, String)>,
        expand: Option<String>,
        fields: Option<String>,
    ) -> (r: Request)
        ensures
            is_request(
                r,
                self@,
                "GET"@,
                list_query(
                    query_view(query@),
                    1,
                    1,
                    true,
                    Some(filter@),
                    None,
                    text_view(expand),
                    text_view(fields),
                ),
                headers,
            ),
            json_is_null(r.options.body),
            r.options.files@.len() == 0,
    {
        self.get_list(1, 1, true, query, headers, Some(filter), None, expand, fields)
    }

    /// The request for one page of all records, `batch` items a page and
    /// no total. A batch size that is not positive is refused.
    pub fn get_full_list(
        &self,
        batch: i32,
        page: i32,
        query: Vec<(String, Value)>,
        headers: Vec<(String, String)>,
        filter: Option<String>,
        sort: Option<String>,
        expand: Option<String>,
        fields: Option<String>,
    ) -> (r: Result<Request, ClientResponseError>)
        ensures
            batch <= 0 ==> r is Err && is_batch_error(r->Err_0),
            batch > 0 ==> r is Ok && is_request(
                r->Ok_0,
                self@,
                "GET"@,
                list_query(
                    query_view(query@),
                    page,
                    batch,
                    true,
                    text_view(filter),
                    text_view(sort),
                    text_view(expand),
                    text_view(fields),
                ),
                headers,
            ) && json_is_null(r->Ok_0.options.body) && r->Ok_0.options.files@.len() == 0,
    {
        if batch <= 0 {
            return Err(
                ClientResponseError::new(
                    String::new(),
                    400,
                    message_value("batch must be > 0"),
                    false,
                    None,
                ),
            );
        }
        Ok(self.get_list(page, batch, true, query, headers, filter, sort, expand, fields))
    }

    /// The request that creates a record.
    pub fn create(
        &self,
        body: Value,
        query: Vec<(String, Value)>,
        files: Vec<FileAttachment>,
        headers: Vec<(String, String)>,
        expand: Option<String>,
        fields: Option<String>,
    ) -> (r: Request)
        ensures
            is_request(
                r,
                self@,
                "POST"@,
                item_query(query_view(query@), text_view(expand), text_view(fields)),
                headers,
            ),
            r.options.body == body,
            r.options.files == files,
    {
        let params = set_text_param(query, "expand", expand);
        let params = set_text_param(params, "fields", fields);
        Request {
            path: self.crud_path.clone(),
            options: SendOptions {
                method: "POST".to_owned(),
                headers,
                query: params,
                body,
                files,
                timeout: None,
            },
        }
    }

    /// The request that changes a record.
    pub fn update(
        &self,
        record_id: &str,
        body: Value,
        query: Vec<(String, Value)>,
        files: Vec<FileAttachment>,
        headers: Vec<(String, String)>,
        expand: Option<String>,
        fields: Option<String>,
    ) -> (r: Request)
        ensures
            is_request(
                r,
                item_path(self@, record_id@),
                "PATCH"@,
                item_query(query_view(query@), text_view(expand), text_view(fields)),
                headers,
            ),
            r.options.body == body,
            r.options.files == files,
    {
        let params = set_text_param(query, "expand", expand);
        let params = set_text_param(params, "fields", fields);
        Request {
            path: self.item(record_id),
            options: SendOptions {
                method: "PATCH".to_owned(),
                headers,
                query: params,
                body,
                files,
                timeout: None,
            },
        }
    }

    /// The request that removes a record.
    pub fn remove(
        &self,
        record_id: &str,
        body: Value,
        query: Vec<(String, Value)>,
        headers: Vec<(String, String)>,
    ) -> (r: Request)
        ensures
            is_request(r, item_path(self@, record_id@), "DELETE"@, query_view(query@), headers),
            r.options.body == body,
            r.options.files@.len() == 0,
    {
        Request {
            path: self.item(record_id),
            options: SendOptions {
                method: "DELETE".to_owned(),
                headers,
                query,
                body,
                files: Vec::new(),
                timeout: None,
            },
        }
    }
}

/// A listing of all records that is under way, page by page.
#[derive(Debug, Clone)]
pub struct FullList {
    batch: i32,
    page: i32,
    items: Vec<Value>,
    done: bool,
}

/// A listing under way as plain values: the page size asked for, the
/// number of the page that is asked for next (or, when done, was asked for
/// last), the items gathered so far, and whether the last page was seen.
pub struct FullListView {
    pub batch: i32,
    pub page: int,
    pub items: Seq<Value>,
    pub done: bool,
}

impl View for FullList {
    type V = FullListView;

    closed spec fn view(&self) -> FullListView {
        FullListView {
            batch: self.batch,
            page: self.page as int,
            items: self.items@,
            done: self.done,
        }
    }
}

/// A listing that has asked for nothing yet: the first page is next.
pub open spec fn list_started(batch: i32) -> FullListView {
    FullListView { batch, page: 1, items: Seq::empty(), done: false }
}

/// The listing after the answer for its page has come in: the items of the
/// page follow the items gathered before; the listing is done where the
/// page is the last one, and otherwise goes on with the next page. A
/// listing that is done takes nothing in.
pub open spec fn list_absorbed(list: FullListView, data: Value) -> FullListView {
    if list.done {
        list
    } else if is_last_page(data, list.batch) {
        FullListView { items: list.items + page_items(data), done: true, ..list }
    } else {
        FullListView { items: list.items + page_items(data), page: list.page + 1, ..list }
    }
}

/// The listing after the answers for its pages have come in, in order.
pub open spec fn list_after(list: FullListView, answers: Seq<Value>) -> FullListView
    decreases answers.len(),
{
    if answers.len() == 0 {
        list
    } else {
        list_absorbed(list_after(list, answers.drop_last()), answers.last())
    }
}

/// The items of the pages, in the order of the pages.
pub open spec fn all_items(answers: Seq<Value>) -> Seq<Value>
    decreases answers.len(),
{
    if answers.len() == 0 {
        Seq::empty()
    } else {
        all_items(answers.drop_last()) + page_items(answers.last())
    }
}

/// A full listing is the items of its pages in order, one request a page:
/// where the answers to the requests for the pages 1, 2, ... are given and
/// the last of them is the first that holds a last page, the listing asks
/// for page `i + 1` after `i` answers, is done after the last answer and
/// not before, and then holds the items of all pages in page order.
pub proof fn lemma_full_list(batch: i32, answers: Seq<Value>)
    requires
        answers.len() > 0,
        forall|i: int| 0 <= i < answers.len() - 1 ==> !is_last_page(#[trigger] answers[i], batch),
        is_last_page(answers.last(), batch),
    ensures
        forall|i: int|
            0 <= i < answers.len() ==> !(#[trigger] list_after(
                list_started(batch),
                answers.take(i),
            )).done && list_after(list_started(batch), answers.take(i)).page == i + 1,
        list_after(list_started(batch), answers).done,
        list_after(list_started(batch), answers).page == answers.len(),
        list_after(list_started(batch), answers).items == all_items(answers),
        list_after(list_started(batch), answers).batch == batch,
{
    let start = list_started(batch);
    assert forall|i: int| 0 <= i < answers.len() implies !(#[trigger] list_after(
        start,
        answers.take(i),
    )).done && list_after(start, answers.take(i)).page == i + 1 && list_after(
        start,
        answers.take(i),
    ).items == all_items(answers.take(i)) && list_after(start, answers.take(i)).batch == batch by {
        lemma_list_under_way(batch, answers, i);
    }
    let n = answers.len() as int;
    let before = answers.take(n - 1);
    assert(answers.drop_last() =~= before);
    assert(list_after(start, before).page == n);
}

/// After `i` answers that hold no last page the listing is not done, asks
/// for page `i + 1` and holds the items of those pages.
proof fn lemma_list_under_way(batch: i32, answers: Seq<Value>, i: int)
    requires
        0 <= i <= answers.len(),
        forall|j: int| 0 <= j < i ==> !is_last_page(#[trigger] answers[j], batch),
    ensures
        !list_after(list_started(batch), answers.take(i)).done,
        list_after(list_started(batch), answers.take(i)).page == i + 1,
        list_after(list_started(batch), answers.take(i)).items == all_items(answers.take(i)),
        list_after(list_started(batch), answers.take(i)).batch == batch,
    decreases i,
{
    if i > 0 {
        lemma_list_under_way(batch, answers, i - 1);
        assert(answers.take(i).drop_last() =~= answers.take(i - 1));
        assert(answers.take(i).last() == answers[i - 1]);
    } else {
        assert(answers.take(0).len() == 0);
    }
}

impl FullList {
    /// Begins a listing of all records, `batch` items a page. A batch size
    /// that is not positive is refused.
    pub fn start(batch: i32) -> (r: Result<FullList, ClientResponseError>)
        ensures
            batch <= 0 ==> r is Err && is_batch_error(r->Err_0),
            batch > 0 ==> r is Ok && r->Ok_0@ == list_started(batch),
    {
        if batch <= 0 {
            return Err(
                ClientResponseError::new(
                    String::new(),
                    400,
                    message_value("batch must be > 0"),
                    false,
                    None,
                ),
            );
        }
        Ok(FullList { batch, page: 1, items: Vec::new(), done: false })
    }

    /// Whether the last page was seen.
    pub fn is_done(&self) -> (r: bool)
        ensures
            r == self@.done,
    {
        self.done
    }

    /// The number of the page that is asked for next.
    pub fn page(&self) -> (r: i32)
        ensures
            r == self@.page,
    {
        self.page
    }

    /// Takes in the answer for the current page: its items follow the
    /// items gathered before; the listing is done where the page is the
    /// last one, and otherwise goes on with the next page. The result tells
    /// whether the answer was taken in. It is not where the listing is done
    /// already, or where a further page would follow and there is no number
    /// left for it; the listing then stays as it is.
    pub fn absorb(&mut self, data: &Value) -> (taken: bool)
        ensures
            taken == (!old(self)@.done && (is_last_page(*data, old(self)@.batch) || old(self)@.page < i32::MAX)),
            taken ==> final(self)@ == list_absorbed(old(self)@, *data),
            !taken ==> final(self)@ == old(self)@,
    {
        if self.done {
            return false;
        }
        let last = page_is_last(data, self.batch);
        if !last && self.page == i32::MAX {
            return false;
        }
        let mut items = items_of(data);
        self.items.append(&mut items);
        if last {
            self.done = true;
        } else {
            self.page = self.page + 1;
        }
        true
    }

    /// The items gathered, once the listing is done; before that, the
    /// listing itself is handed back.
    pub fn finish(self) -> (r: Result<Vec<Value>, FullList>)
        ensures
            self@.done ==> r is Ok && r->Ok_0@ == self@.items,
            !self@.done ==> r is Err && r->Err_0 == self,
    {
        if self.done {
            Ok(self.items)
        } else {
            Err(self)
        }
    }
}

impl BaseCrudService {
    /// The request for the page that a listing asks for next: the page's
    /// number, the batch size as page size, and no total. A listing that is
    /// done asks for nothing.
    pub fn next_page(
        &self,
        list: &FullList,
        query: Vec<(String, Value)>,
        headers: Vec<(String, String)>,
        filter: Option<String>,
        sort: Option<String>,
        expand: Option<String>,
        fields: Option<String>,
    ) -> (r: Option<Request>)
        ensures
            list@.done ==> r is None,
            !list@.done ==> r is Some && is_request(
                r->Some_0,
                self@,
                "GET"@,
                list_query(
                    query_view(query@),
                    list@.page as i32,
                    list@.batch,
                    true,
                    text_view(filter),
                    text_view(sort),
                    text_view(expand),
                    text_view(fields),
                ),
                headers,
            ) && json_is_null(r->Some_0.options.body) && r->Some_0.options.files@.len() == 0,
    {
        if list.done {
            None
        } else {
            Some(self.get_list(list.page, list.batch, true, query, headers, filter, sort, expand, fields))
        }
    }
}

} // verus!
