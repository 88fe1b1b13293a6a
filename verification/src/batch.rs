//! Batches: several requests that travel as one.
//!
//! Requests are queued and sent together to one path. Each queued request
//! is listed in the body under `requests`; its files travel with the batch
//! under field names that tell which request they belong to.

use crate::crud::item_path;
use crate::crud::item_query;
use crate::crud::Request;
use crate::crud::set_text_param;
use crate::crud::text_view;
use crate::json::array_value;
use crate::json::as_object;
use crate::json::is_null;
use crate::json::json_array;
use crate::json::json_as_object;
use crate::json::json_is_null;
use crate::json::json_object;
use crate::json::json_string;
use crate::json::new_object;
use crate::json::no_entries;
use crate::json::object_insert;
use crate::json::object_value;
use crate::json::string_value;
use crate::key::header_values;
use crate::key::headers_object;
use crate::key::pairs_map;
use crate::request::FileAttachment;
use crate::request::SendOptions;
use crate::text::string_of;
use crate::utils::build_relative_url;
use crate::utils::encode_path_segment;
use crate::utils::query_view;
use crate::utils::relative_url;
use crate::utils::url_encoded;
use serde_json::Value;
use vstd::prelude::*;

verus! {

/// The path that batches are sent to.
pub const BATCH_PATH: &'static str = "/api/batch";

/// The decimal digit of a number below ten.
pub open spec fn digit(n: nat) -> char {
    (0x30 + n) as char
}

/// A number written in decimal digits.
pub open spec fn decimal(n: nat) -> Seq<char>
    decreases n,
{
    if n < 10 {
        seq![digit(n)]
    } else {
        decimal(n / 10).push(digit(n % 10))
    }
}

/// Writes a number in decimal digits.
pub fn to_decimal(n: usize) -> (r: String)
    ensures
        r@ == decimal(n as nat),
{
    let mut digits: Vec<char> = Vec::new();
    let mut rest: usize = n;
    let ghost mut tail: Seq<char> = Seq::empty();
    while rest >= 10
        invariant
            digits@ == tail.reverse(),
            decimal(n as nat) == decimal(rest as nat) + tail,
        decreases rest,
    {
        let d: u8 = (rest % 10) as u8;
        let c: char = (0x30u8 + d) as char;
        proof {
            assert(c == digit((rest % 10) as nat));
            assert(decimal(rest as nat) == decimal((rest / 10) as nat).push(c));
            assert(decimal((rest / 10) as nat).push(c) + tail =~= decimal((rest / 10) as nat) + (
            seq![c] + tail));
            assert((seq![c] + tail).reverse() =~= tail.reverse().push(c));
            tail = seq![c] + tail;
        }
        digits.push(c);
        rest = rest / 10;
    }
    let c: char = (0x30u8 + (rest as u8)) as char;
    proof {
        assert(c == digit(rest as nat));
        assert((seq![c] + tail).reverse() =~= tail.reverse().push(c));
        assert(decimal(rest as nat) + tail =~= seq![c] + tail);
    }
    digits.push(c);
    let ghost all = seq![c] + tail;
    let mut out: Vec<char> = Vec::new();
    let mut i: usize = digits.len();
    while i > 0
        invariant
            i <= digits.len(),
            digits@ == all.reverse(),
            out@ == all.take(digits.len() - i),
        decreases i,
    {
        i -= 1;
        out.push(digits[i]);
        proof {
            assert(digits@[i as int] == all[all.len() - 1 - i]);
            assert(out@ =~= all.take(digits.len() - i));
        }
    }
    proof {
        assert(all.take(all.len() as int) =~= all);
    }
    string_of(&out)
}

/// A request that waits in a batch.
#[derive(Debug, Clone)]
pub struct QueuedBatchRequest {
    pub method: String,
    pub url: String,
    pub headers: Vec<(String, String)>,
    pub body: Value,
    pub files: Vec<FileAttachment>,
}

/// A queued request as plain values. The body is kept as it is.
pub struct QueuedView {
    pub method: Seq<char>,
    pub url: Seq<char>,
    pub headers: Seq<(Seq<char>, Seq<char>)>,
    pub body: Value,
    pub files: Seq<FileAttachment>,
}

impl View for QueuedBatchRequest {
    type V = QueuedView;

    open spec fn view(&self) -> QueuedView {
        QueuedView {
            method: self.method@,
            url: self.url@,
            headers: self.headers.deep_view(),
            body: self.body,
            files: self.files@,
        }
    }
}

/// The views of a list of queued requests.
pub open spec fn queue_view(requests: Seq<QueuedBatchRequest>) -> Seq<QueuedView> {
    Seq::new(requests.len(), |i: int| requests[i]@)
}

/// Whether a value is the body that a request is queued with: the body
/// given, or the empty object in place of null.
pub open spec fn is_queued_body(queued: Value, body: Value) -> bool {
    if json_is_null(body) {
        queued == json_object(no_entries())
    } else {
        queued == body
    }
}

/// The entry of a queued request in the body of a batch.
pub open spec fn batch_item(request: QueuedView) -> Value {
    json_object(
        no_entries().insert("method"@, json_string(request.method)).insert(
            "url"@,
            json_string(request.url),
        ).insert("headers"@, json_object(header_values(pairs_map(request.headers)))).insert(
            "body"@,
            request.body,
        ),
    )
}

/// The entries of the queued requests, in order.
pub open spec fn batch_items(requests: Seq<QueuedView>) -> Seq<Value> {
    Seq::new(requests.len(), |i: int| batch_item(requests[i]))
}

/// The name of a file's field in a batch: `requests`, the index of the
/// file's request and the field's own name, joined by dots.
pub open spec fn batch_field(index: nat, field: Seq<char>) -> Seq<char> {
    "requests."@ + decimal(index) + seq!['.'] + field
}

/// Whether a file is the given one under its name in a batch.
pub open spec fn is_batch_file(out: FileAttachment, index: nat, file: FileAttachment) -> bool {
    &&& out.field@ == batch_field(index, file.field@)
    &&& out.filename@ == file.filename@
    &&& out.content_type@ == file.content_type@
    &&& out.data@ == file.data@
}

/// The number of files of the first `n` queued requests.
pub open spec fn files_before(requests: Seq<QueuedView>, n: int) -> int
    decreases n,
{
    if n <= 0 {
        0
    } else {
        files_before(requests, n - 1) + requests[n - 1].files.len()
    }
}

/// Whether a list holds the files of the first `n` queued requests, request
/// by request, each under its name in the batch.
pub open spec fn are_batch_files(out: Seq<FileAttachment>, requests: Seq<QueuedView>, n: int)
    -> bool {
    &&& out.len() == files_before(requests, n)
    &&& forall|i: int, j: int|
        0 <= i < n && 0 <= j < requests[i].files.len() ==> is_batch_file(
            #[trigger] out[files_before(requests, i) + j],
            i as nat,
            #[trigger] requests[i].files[j],
        )
}

/// The base of a batch's body: no entries for null, the entries of an
/// object, and none for any other value.
pub open spec fn batch_base(body: Value) -> Option<Map<Seq<char>, Value>> {
    if json_is_null(body) {
        Some(no_entries())
    } else {
        json_as_object(body)
    }
}

/// The collection's records as a path.
pub open spec fn collection_records(collection: Seq<char>) -> Seq<char> {
    "/api/collections/"@ + url_encoded(collection) + "/records"@
}

/// The requests that wait to be sent as one batch.
pub struct BatchService {
    requests: Vec<QueuedBatchRequest>,
}

impl View for BatchService {
    type V = Seq<QueuedView>;

    closed spec fn view(&self) -> Seq<QueuedView> {
        queue_view(self.requests@)
    }
}

impl BatchService {
    /// A batch without requests.
    pub fn new() -> (r: Self)
        ensures
            r@.len() == 0,
    {
        BatchService { requests: Vec::new() }
    }

    /// The number of requests that wait.
    pub fn len(&self) -> (r: usize)
        ensures
            r == self@.len(),
    {
        self.requests.len()
    }

    /// The part of the batch for the records of one collection.
    pub fn collection(&self, collection: String) -> (r: SubBatchService)
        ensures
            r@ == collection@,
    {
        SubBatchService { collection }
    }

    /// Puts a request at the end of the batch. A null body is queued as the
    /// empty object.
    pub fn queue_request(
        &mut self,
        method: String,
        url: String,
        headers: Vec<(String, String)>,
        body: Value,
        files: Vec<FileAttachment>,
    )
        ensures
            final(self)@.len() == old(self)@.len() + 1,
            forall|i: int| 0 <= i < old(self)@.len() ==> final(self)@[i] == old(self)@[i],
            final(self)@.last().method == method@,
            final(self)@.last().url == url@,
            final(self)@.last().headers == headers.deep_view(),
            is_queued_body(final(self)@.last().body, body),
            final(self)@.last().files == files@,
    {
        let queued = if is_null(&body) {
            object_value(new_object())
        } else {
            body
        };
        self.requests.push(QueuedBatchRequest { method, url, headers, body: queued, files });
    }

    /// The files of the queued requests, each under its name in the batch.
    fn attachments(&self) -> (r: Vec<FileAttachment>)
        ensures
            are_batch_files(r@, self@, self@.len() as int),
    {
        let mut out: Vec<FileAttachment> = Vec::new();
        let mut i: usize = 0;
        while i < self.requests.len()
            invariant
                i <= self.requests.len(),
                are_batch_files(out@, self@, i as int),
            decreases self.requests.len() - i,
        {
            let files = &self.requests[i].files;
            let ghost before = out@;
            proof {
                assert(are_batch_files(before, self@, i as int));
            }
            let mut j: usize = 0;
            while j < files.len()
                invariant
                    i < self.requests.len(),
                    j <= files.len(),
                    files@ == self@[i as int].files,
                    before.len() == files_before(self@, i as int),
                    out@.len() == before.len() + j,
                    forall|k: int| 0 <= k < before.len() ==> out@[k] == before[k],
                    forall|k: int|
                        0 <= k < j ==> is_batch_file(
                            #[trigger] out@[before.len() + k],
                            i as nat,
                            files@[k],
                        ),
                decreases files.len() - j,
            {
                let file = &files[j];
                let mut field = "requests.".to_owned();
                field.append(to_decimal(i).as_str());
                proof {
                    reveal_strlit(".");
                    assert("."@ =~= seq!['.']);
                }
                field.append(".");
                field.append(file.field.as_str());
                let mut data: Vec<u8> = Vec::new();
                let mut k: usize = 0;
                while k < file.data.len()
                    invariant
                        k <= file.data.len(),
                        data@ == file.data@.take(k as int),
                    decreases file.data.len() - k,
                {
                    data.push(file.data[k]);
                    proof {
                        assert(data@ =~= file.data@.take(k as int + 1));
                    }
                    k += 1;
                }
                proof {
                    assert(file.data@.take(file.data.len() as int) =~= file.data@);
                }
                out.push(
                    FileAttachment {
                        field,
                        filename: file.filename.clone(),
                        content_type: file.content_type.clone(),
                        data,
                    },
                );
                j += 1;
            }
            proof {
                assert(files_before(self@, i as int + 1) == files_before(self@, i as int)
                    + files@.len());
                assert forall|a: int, b: int|
                    0 <= a < i + 1 && 0 <= b < self@[a].files.len() implies is_batch_file(
                    #[trigger] out@[files_before(self@, a) + b],
                    a as nat,
                    #[trigger] self@[a].files[b],
                ) by {
                    if a < i {
                        lemma_files_before_grows(self@, a, i as int);
                        assert(files_before(self@, a + 1) == files_before(self@, a)
                            + self@[a].files.len());
                        let at = files_before(self@, a) + b;
                        assert(0 <= at < before.len()) by {
                            lemma_files_before_grows(self@, 0, a);
                        }
                        assert(out@[at] == before[at]);
                        assert(is_batch_file(before[at], a as nat, self@[a].files[b]));
                    } else {
                        assert(a == i);
                        assert(self@[a].files[b] == files@[b]);
                    }
                }
            }
            i += 1;
        }
        out
    }

    /// The entries of the queued requests for the body of the batch.
    fn items(&self) -> (r: Vec<Value>)
        ensures
            r@ == batch_items(self@),
    {
        let mut out: Vec<Value> = Vec::new();
        let mut i: usize = 0;
        while i < self.requests.len()
            invariant
                i <= self.requests.len(),
                out@ == batch_items(self@).take(i as int),
            decreases self.requests.len() - i,
        {
            let request = &self.requests[i];
            let mut item = new_object();
            object_insert(&mut item, "method".to_owned(), string_value(request.method.clone()));
            object_insert(&mut item, "url".to_owned(), string_value(request.url.clone()));
            object_insert(
                &mut item,
                "headers".to_owned(),
                object_value(headers_object(&request.headers)),
            );
            object_insert(&mut item, "body".to_owned(), request.body.clone());
            out.push(object_value(item));
            proof {
                assert(out@ =~= batch_items(self@).take(i as int + 1));
            }
            i += 1;
        }
        proof {
            assert(batch_items(self@).take(self@.len() as int) =~= batch_items(self@));
        }
        out
    }

    /// The request that sends the batch, and an empty batch afterwards. The
    /// body given is the base of the batch's body: null stands for the
    /// empty object. A body that is neither null nor an object cannot carry
    /// the requests: nothing is sent then, and the batch stays as it is.
    pub fn send(&mut self, body: Value, query: Vec<(String, Value)>, headers: Vec<(String, String)>)
        -> (r: Option<Request>)
        ensures
            batch_base(body) is None ==> r is None && final(self)@ == old(self)@,
            batch_base(body) is Some ==> r is Some && final(self)@.len() == 0 && r->Some_0.path@
                == BATCH_PATH@ && r->Some_0.options.method@ == "POST"@ && r->Some_0.options.body
                == json_object(
                batch_base(body).unwrap().insert(
                    "requests"@,
                    json_array(batch_items(old(self)@)),
                ),
            ) && r->Some_0.options.query == query && r->Some_0.options.headers == headers
                && r->Some_0.options.timeout is None && are_batch_files(
                r->Some_0.options.files@,
                old(self)@,
                old(self)@.len() as int,
            ),
    {
        let mut payload = if is_null(&body) {
            new_object()
        } else {
            match as_object(&body) {
                Some(m) => m.clone(),
                None => {
                    return None;
                },
            }
        };
        object_insert(&mut payload, "requests".to_owned(), array_value(self.items()));
        let files = self.attachments();
        self.requests = Vec::new();
        proof {
            assert(queue_view(self.requests@) =~= Seq::empty());
        }
        Some(
            Request {
                path: BATCH_PATH.to_owned(),
                options: SendOptions {
                    method: "POST".to_owned(),
                    headers,
                    query,
                    body: object_value(payload),
                    files,
                    timeout: None,
                },
            },
        )
    }
}

/// The files of more requests are no fewer.
pub proof fn lemma_files_before_grows(requests: Seq<QueuedView>, a: int, b: int)
    requires
        0 <= a <= b,
    ensures
        files_before(requests, a) <= files_before(requests, b),
        a < b ==> files_before(requests, a + 1) <= files_before(requests, b),
    decreases b - a,
{
    if a < b {
        lemma_files_before_grows(requests, a, b - 1);
        if a + 1 < b {
            lemma_files_before_grows(requests, a + 1, b - 1);
        }
    }
}

/// The part of a batch for the records of one collection.
#[derive(Debug, Clone)]
pub struct SubBatchService {
    collection: String,
}

impl View for SubBatchService {
    type V = Seq<char>;

    closed spec fn view(&self) -> Seq<char> {
        self.collection@
    }
}

impl SubBatchService {
    /// The path of the collection's records.
    pub fn collection_url(&self) -> (r: String)
        ensures
            r@ == collection_records(self@),
    {
        let mut path = "/api/collections/".to_owned();
        path.append(encode_path_segment(self.collection.as_str()).as_str());
        path.append("/records");
        path
    }

    fn record_url(&self, record_id: &str) -> (r: String)
        ensures
            r@ == item_path(collection_records(self@), record_id@),
    {
        let mut path = self.collection_url();
        proof {
            reveal_strlit("/");
            assert("/"@ =~= seq!['/']);
        }
        path.append("/");
        path.append(encode_path_segment(record_id).as_str());
        path
    }

    fn queue(
        batch: &mut BatchService,
        method: &str,
        path: String,
        body: Value,
        query: Vec<(String, Value)>,
        files: Vec<FileAttachment>,
        expand: Option<String>,
        fields: Option<String>,
    )
        ensures
            is_queued(
                old(batch)@,
                final(batch)@,
                method@,
                relative_url(
                    path@,
                    item_query(query_view(query@), text_view(expand), text_view(fields)),
                ),
                body,
                files@,
            ),
    {
        let params = set_text_param(query, "expand", expand);
        let params = set_text_param(params, "fields", fields);
        let url = build_relative_url(path.as_str(), &params);
        let no_headers: Vec<(String, String)> = Vec::new();
        proof {
            assert(no_headers.deep_view() =~= Seq::empty());
        }
        batch.queue_request(method.to_owned(), url, no_headers, body, files);
    }

    /// Queues the creation of a record.
    pub fn create(
        &self,
        batch: &mut BatchService,
        body: Value,
        query: Vec<(String, Value)>,
        files: Vec<FileAttachment>,
        expand: Option<String>,
        fields: Option<String>,
    )
        ensures
            is_queued(
                old(batch)@,
                final(batch)@,
                "POST"@,
                relative_url(
                    collection_records(self@),
                    item_query(query_view(query@), text_view(expand), text_view(fields)),
                ),
                body,
                files@,
            ),
    {
        Self::queue(batch, "POST", self.collection_url(), body, query, files, expand, fields);
    }

    /// Queues the creation or replacement of a record.
    pub fn upsert(
        &self,
        batch: &mut BatchService,
        body: Value,
        query: Vec<(String, Value)>,
        files: Vec<FileAttachment>,
        expand: Option<String>,
        fields: Option<String>,
    )
        ensures
            is_queued(
                old(batch)@,
                final(batch)@,
                "PUT"@,
                relative_url(
                    collection_records(self@),
                    item_query(query_view(query@), text_view(expand), text_view(fields)),
                ),
                body,
                files@,
            ),
    {
        Self::queue(batch, "PUT", self.collection_url(), body, query, files, expand, fields);
    }

    /// Queues the change of a record.
    pub fn update(
        &self,
        batch: &mut BatchService,
        record_id: &str,
        body: Value,
        query: Vec<(String, Value)>,
        files: Vec<FileAttachment>,
        expand: Option<String>,
        fields: Option<String>,
    )
        ensures
            is_queued(
                old(batch)@,
                final(batch)@,
                "PATCH"@,
                relative_url(
                    item_path(collection_records(self@), record_id@),
                    item_query(query_view(query@), text_view(expand), text_view(fields)),
                ),
                body,
                files@,
            ),
    {
        Self::queue(
            batch,
            "PATCH",
            self.record_url(record_id),
            body,
            query,
            files,
            expand,
            fields,
        );
    }

    /// Queues the removal of a record.
    pub fn remove(
        &self,
        batch: &mut BatchService,
        record_id: &str,
        body: Value,
        query: Vec<(String, Value)>,
    )
        ensures
            is_queued(
                old(batch)@,
                final(batch)@,
                "DELETE"@,
                relative_url(item_path(collection_records(self@), record_id@), query_view(query@)),
                body,
                Seq::empty(),
            ),
    {
        let none: Vec<FileAttachment> = Vec::new();
        Self::queue(batch, "DELETE", self.record_url(record_id), body, query, none, None, None);
    }
}

/// Whether a batch is an earlier one with one more request: the method and
/// the URL given, no headers, the body given (the empty object in place of
/// null) and the files given.
pub open spec fn is_queued(
    before: Seq<QueuedView>,
    after: Seq<QueuedView>,
    method: Seq<char>,
    url: Seq<char>,
    body: Value,
    files: Seq<FileAttachment>,
) -> bool {
    &&& after.len() == before.len() + 1
    &&& forall|i: int| 0 <= i < before.len() ==> after[i] == before[i]
    &&& after.last().method == method
    &&& after.last().url == url
    &&& after.last().headers.len() == 0
    &&& is_queued_body(after.last().body, body)
    &&& after.last().files == files
}

} // verus!
