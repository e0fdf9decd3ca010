//! Paginated listing and the bulk operations built on it.
//!
//! Listing is cursor-driven: the caller asks for the next request,
//! performs it against the storage service, and feeds the resulting
//! page's continuation token back.  The sequence of requests ends the
//! first time a response carries no token, and never before the first
//! request.  Bulk delete/copy/move are pure planners: from listed pages
//! or records they produce the exact requests the caller must issue.

use vstd::prelude::*;
use vstd::string::{StrSliceExecFns, StringExecFns};
use crate::config::Config;
use crate::retry::RetryError;

verus! {

/// One listed object: key and size, both always present (entries
/// missing either are discarded when the page is read).
#[derive(Debug)]
pub struct ObjectRecord {
    pub key: String,
    pub size: u64,
}

impl Clone for ObjectRecord {
    fn clone(&self) -> (c: ObjectRecord)
        ensures
            c == *self,
    {
        ObjectRecord { key: self.key.clone(), size: self.size }
    }
}

/// One response page of a listing call.
#[derive(Debug)]
pub struct ListPage {
    /// The objects named by this page.
    pub records: Vec<ObjectRecord>,
    /// The continuation token, if more pages remain.
    pub next_token: Option<String>,
}

/// One listing request, ready for the storage client.
#[derive(Debug)]
pub struct ListRequest {
    pub bucket: String,
    /// Common prefix to list under; empty lists the whole bucket.
    pub prefix: String,
    /// Cursor from the previous page; absent on the first request.
    pub continuation_token: Option<String>,
}

/// One get-object request, with the listed size as a hint for
/// timeout estimation.
#[derive(Debug)]
pub struct GetRequest {
    pub bucket: String,
    pub key: String,
    pub size: u64,
}

/// One copy-object request.
#[derive(Debug)]
pub struct CopyRequest {
    pub source_bucket: String,
    pub source_key: String,
    pub bucket: String,
    pub key: String,
    /// Size of the object being copied, for timeout estimation.
    pub size: u64,
}

/// One delete-object request.
#[derive(Debug)]
pub struct DeleteRequest {
    pub bucket: String,
    pub key: String,
}

/// One batched delete request naming every object of one page.
#[derive(Debug)]
pub struct BatchDeleteRequest {
    pub bucket: String,
    pub keys: Vec<String>,
}

/// What a bulk operation reports when a request has exhausted its
/// retry budget, naming the offending bucket and key where one exists.
#[derive(Debug)]
pub enum S3Error {
    ListFailed { bucket: String },
    GetFailed { bucket: String, key: String },
    PutFailed { bucket: String, key: String },
    CopyFailed { bucket: String, key: String },
    DeleteFailed { bucket: String, key: String },
    BatchDeleteFailed { bucket: String },
    TimeoutElapsed { bucket: String, key: String },
    BodyReadFailed { key: String },
}

/// The six storage verbs a bulk operation can be retrying when it
/// gives up.
#[derive(Clone, Copy, Debug, PartialEq, Eq, Structural)]
pub enum StorageVerb {
    List,
    Get,
    Put,
    Copy,
    Delete,
    BatchDelete,
}

/// The error surfaced when the retry budget for one request is spent:
/// a fired timer surfaces the timeout kind, an operation error
/// surfaces the kind of the verb that failed.
pub fn failure_error(verb: StorageVerb, bucket: &String, key: &String, err: &RetryError) -> (e:
    S3Error)
    ensures
        (err matches RetryError::TimeoutElapsed { .. }) ==> e == (S3Error::TimeoutElapsed {
            bucket: *bucket,
            key: *key,
        }),
        (err matches RetryError::OperationFailed { .. }) ==> match verb {
            StorageVerb::List => e == (S3Error::ListFailed { bucket: *bucket }),
            StorageVerb::Get => e == (S3Error::GetFailed { bucket: *bucket, key: *key }),
            StorageVerb::Put => e == (S3Error::PutFailed { bucket: *bucket, key: *key }),
            StorageVerb::Copy => e == (S3Error::CopyFailed { bucket: *bucket, key: *key }),
            StorageVerb::Delete => e == (S3Error::DeleteFailed { bucket: *bucket, key: *key }),
            StorageVerb::BatchDelete => e == (S3Error::BatchDeleteFailed { bucket: *bucket }),
        },
{
    match err {
        RetryError::TimeoutElapsed { .. } => S3Error::TimeoutElapsed {
            bucket: bucket.clone(),
            key: key.clone(),
        },
        RetryError::OperationFailed { .. } => match verb {
            StorageVerb::List => S3Error::ListFailed { bucket: bucket.clone() },
            StorageVerb::Get => S3Error::GetFailed { bucket: bucket.clone(), key: key.clone() },
            StorageVerb::Put => S3Error::PutFailed { bucket: bucket.clone(), key: key.clone() },
            StorageVerb::Copy => S3Error::CopyFailed { bucket: bucket.clone(), key: key.clone() },
            StorageVerb::Delete => S3Error::DeleteFailed {
                bucket: bucket.clone(),
                key: key.clone(),
            },
            StorageVerb::BatchDelete => S3Error::BatchDeleteFailed { bucket: bucket.clone() },
        },
    }
}

/// Whether `p` is a prefix of `s`, character by character.
pub fn str_has_prefix(s: &str, p: &str) -> (b: bool)
    ensures
        b == p@.is_prefix_of(s@),
{
    let slen = s.unicode_len();
    let plen = p.unicode_len();
    if plen > slen {
        proof {
            assert(!p@.is_prefix_of(s@));
        }
        return false;
    }
    let mut i: usize = 0;
    while i < plen
        invariant
            0 <= i <= plen,
            plen == p@.len(),
            plen <= slen == s@.len(),
            forall|j: int| 0 <= j < i ==> p@[j] == s@[j],
        decreases plen - i,
    {
        if s.get_char(i) != p.get_char(i) {
            proof {
                assert(!p@.is_prefix_of(s@));
            }
            return false;
        }
        i = i + 1;
    }
    proof {
        assert(p@ =~= s@.take(p@.len() as int));
    }
    true
}

/// How a bulk copy or move renames each key.
#[derive(Debug)]
pub enum KeyMapping {
    /// Keep every key as it is.
    Identity,
    /// Strip `old_prefix` from the front of the key (when present) and
    /// prepend `new_prefix`; a key without the old prefix keeps its
    /// whole name under the new prefix.
    SubstitutePrefix { old_prefix: String, new_prefix: String },
}

impl KeyMapping {
    /// The renamed key.
    pub open spec fn spec_apply(&self, key: Seq<char>) -> Seq<char> {
        match self {
            KeyMapping::Identity => key,
            KeyMapping::SubstitutePrefix { old_prefix, new_prefix } => {
                if old_prefix@.is_prefix_of(key) {
                    new_prefix@ + key.skip(old_prefix@.len() as int)
                } else {
                    new_prefix@ + key
                }
            },
        }
    }

    /// Rename one key.
    pub fn apply(&self, key: &str) -> (r: String)
        ensures
            r@ == self.spec_apply(key@),
    {
        match self {
            KeyMapping::Identity => key.to_owned(),
            KeyMapping::SubstitutePrefix { old_prefix, new_prefix } => {
                let keylen = key.unicode_len();
                let plen = old_prefix.as_str().unicode_len();
                let mut out: String = new_prefix.clone();
                if str_has_prefix(key, old_prefix.as_str()) {
                    let tail = key.substring_char(plen, keylen);
                    out.append(tail);
                    proof {
                        assert(key@.subrange(old_prefix@.len() as int, key@.len() as int) =~= key@.skip(
                            old_prefix@.len() as int,
                        ));
                    }
                } else {
                    out.append(key);
                }
                out
            },
        }
    }
}

/// Lists the objects under one bucket and prefix, page by page, and
/// plans the bulk operations on what was listed.  The continuation
/// state starts at "no token, first request still owed"; the request
/// sequence ends the first time a page carries no token, and never
/// before the first request.
#[derive(Debug)]
pub struct ListObjects {
    /// Tuning knobs of the logical operation this listing belongs to.
    pub config: Config,
    /// The bucket being listed.
    pub bucket: String,
    /// Common prefix of the listed objects; empty when the whole
    /// bucket was requested.
    pub prefix: String,
    /// Continuation token captured from the previous page.
    pub token: Option<String>,
    /// Whether the first request is still owed.
    pub first: bool,
}

impl ListObjects {
    /// The continuation token the next request will carry.
    pub open spec fn spec_token(&self) -> Option<String> {
        self.token
    }

    /// Whether the first listing request has not yet been issued.
    pub open spec fn spec_first(&self) -> bool {
        self.first
    }

    /// The listing is exhausted: at least one request was made and the
    /// last response carried no continuation token.
    pub open spec fn done(&self) -> bool {
        !self.spec_first() && self.spec_token() is None
    }

    /// A fresh listing of `bucket` under `prefix`: no request made
    /// yet, so the sequence is not done.
    pub fn new(config: Config, bucket: String, prefix: String) -> (l: ListObjects)
        ensures
            l.config == config,
            l.bucket == bucket,
            l.prefix == prefix,
            l.spec_first(),
            l.spec_token() is None,
            !l.done(),
    {
        ListObjects { config, bucket, prefix, token: Option::None, first: true }
    }

    /// The next listing request, or nothing once a page arrived
    /// without a continuation token.
    pub fn next_request(&self) -> (r: Option<ListRequest>)
        ensures
            self.done() ==> r is None,
            !self.done() ==> r == Option::Some(ListRequest {
                bucket: self.bucket,
                prefix: self.prefix,
                continuation_token: self.spec_token(),
            }),
    {
        if !self.first && self.token.is_none() {
            Option::None
        } else {
            let token = match &self.token {
                Option::Some(t) => Option::Some(t.clone()),
                Option::None => Option::None,
            };
            Option::Some(ListRequest {
                bucket: self.bucket.clone(),
                prefix: self.prefix.clone(),
                continuation_token: token,
            })
        }
    }

    /// Capture the continuation token of the page the last request
    /// returned (pass nothing when the request failed: the error page
    /// is the final one, and the sequence ends).
    pub fn advance(&mut self, next_token: Option<String>)
        requires
            !old(self).done(),
        ensures
            !final(self).spec_first(),
            final(self).spec_token() == next_token,
            final(self).done() == (next_token is None),
            final(self).config == old(self).config,
            final(self).bucket == old(self).bucket,
            final(self).prefix == old(self).prefix,
    {
        self.first = false;
        self.token = next_token;
    }
}

/// The records of a sequence of pages, in listing order.
pub open spec fn flatten_spec(pages: Seq<ListPage>) -> Seq<ObjectRecord>
    decreases pages.len(),
{
    if pages.len() == 0 {
        Seq::empty()
    } else {
        flatten_spec(pages.drop_last()) + pages.last().records@
    }
}

/// The keys named by one page, in page order.
pub open spec fn page_keys(page: ListPage) -> Seq<Seq<char>> {
    Seq::new(page.records@.len(), |i: int| page.records@[i].key@)
}

/// The character sequences of a sequence of key strings.
pub open spec fn key_views(keys: Seq<String>) -> Seq<Seq<char>> {
    Seq::new(keys.len(), |i: int| keys[i]@)
}

impl ListObjects {
    /// Flatten listed pages into the sequence of their records:
    /// exactly the records of every page, in listing order, nothing
    /// added and nothing dropped.
    pub fn flatten(&self, pages: &Vec<ListPage>) -> (records: Vec<ObjectRecord>)
        ensures
            records@ == flatten_spec(pages@),
    {
        let mut records: Vec<ObjectRecord> = Vec::new();
        let mut p: usize = 0;
        while p < pages.len()
            invariant
                0 <= p <= pages@.len(),
                records@ == flatten_spec(pages@.take(p as int)),
            decreases pages@.len() - p,
        {
            let page = &pages[p];
            let mut j: usize = 0;
            while j < page.records.len()
                invariant
                    0 <= j <= page.records@.len(),
                    page == &pages@[p as int],
                    0 <= p < pages@.len(),
                    records@ == flatten_spec(pages@.take(p as int)) + page.records@.take(j as int),
                decreases page.records@.len() - j,
            {
                records.push(page.records[j].clone());
                proof {
                    assert(page.records@.take(j + 1) =~= page.records@.take(j as int).push(
                        page.records@[j as int],
                    ));
                }
                j = j + 1;
            }
            proof {
                assert(pages@.take(p + 1).drop_last() =~= pages@.take(p as int));
                assert(pages@.take(p + 1).last() == pages@[p as int]);
                assert(page.records@.take(page.records@.len() as int) =~= page.records@);
            }
            p = p + 1;
        }
        proof {
            assert(pages@.take(pages@.len() as int) =~= pages@);
        }
        records
    }

    /// One batched delete per listed page, each naming exactly the
    /// keys of that page's records, in page order, against this
    /// listing's bucket.
    pub fn delete_all(&self, pages: &Vec<ListPage>) -> (reqs: Vec<BatchDeleteRequest>)
        ensures
            reqs@.len() == pages@.len(),
            forall|p: int|
                0 <= p < reqs@.len() ==> (#[trigger] reqs@[p]).bucket@ == self.bucket@
                    && key_views(reqs@[p].keys@) == page_keys(pages@[p]),
    {
        let mut reqs: Vec<BatchDeleteRequest> = Vec::new();
        let mut p: usize = 0;
        while p < pages.len()
            invariant
                0 <= p <= pages@.len(),
                reqs@.len() == p,
                forall|q: int|
                    0 <= q < p ==> (#[trigger] reqs@[q]).bucket@ == self.bucket@
                        && key_views(reqs@[q].keys@) == page_keys(pages@[q]),
            decreases pages@.len() - p,
        {
            let page = &pages[p];
            let mut keys: Vec<String> = Vec::new();
            let mut j: usize = 0;
            while j < page.records.len()
                invariant
                    0 <= j <= page.records@.len(),
                    page == &pages@[p as int],
                    0 <= p < pages@.len(),
                    keys@.len() == j,
                    forall|i: int| 0 <= i < j ==> (#[trigger] keys@[i])@ == page.records@[i].key@,
                decreases page.records@.len() - j,
            {
                keys.push(page.records[j].key.clone());
                j = j + 1;
            }
            proof {
                assert(key_views(keys@) =~= page_keys(pages@[p as int]));
            }
            reqs.push(BatchDeleteRequest { bucket: self.bucket.clone(), keys });
            p = p + 1;
        }
        reqs
    }

    /// One get-object request per record, in listing order, carrying
    /// the record's size as the estimator's hint; the caller streams
    /// or buffers each body as it pleases.
    pub fn download_all(&self, records: &Vec<ObjectRecord>) -> (reqs: Vec<GetRequest>)
        ensures
            reqs@.len() == records@.len(),
            forall|i: int|
                0 <= i < reqs@.len() ==> (#[trigger] reqs@[i]).bucket@ == self.bucket@
                    && reqs@[i].key@ == records@[i].key@ && reqs@[i].size == records@[i].size,
    {
        let mut reqs: Vec<GetRequest> = Vec::new();
        let mut i: usize = 0;
        while i < records.len()
            invariant
                0 <= i <= records@.len(),
                reqs@.len() == i,
                forall|q: int|
                    0 <= q < i ==> (#[trigger] reqs@[q]).bucket@ == self.bucket@ && reqs@[q].key@
                        == records@[q].key@ && reqs@[q].size == records@[q].size,
            decreases records@.len() - i,
        {
            reqs.push(GetRequest {
                bucket: self.bucket.clone(),
                key: records[i].key.clone(),
                size: records[i].size,
            });
            i = i + 1;
        }
        reqs
    }

    /// One copy per record, in listing order: the source is this
    /// listing's bucket and the record's key; the destination is
    /// `dest_bucket` (this bucket when absent) and the mapped key.
    /// Copies run strictly one at a time, so order is the plan's
    /// order.
    pub fn copy_all(&self, records: &Vec<ObjectRecord>, dest_bucket: Option<&String>, mapping:
        &KeyMapping) -> (reqs: Vec<CopyRequest>)
        ensures
            reqs@.len() == records@.len(),
            forall|i: int|
                0 <= i < reqs@.len() ==> {
                    &&& (#[trigger] reqs@[i]).source_bucket@ == self.bucket@
                    &&& reqs@[i].source_key@ == records@[i].key@
                    &&& reqs@[i].bucket@ == (match dest_bucket {
                        Option::Some(b) => b@,
                        Option::None => self.bucket@,
                    })
                    &&& reqs@[i].key@ == mapping.spec_apply(records@[i].key@)
                    &&& reqs@[i].size == records@[i].size
                },
    {
        let mut reqs: Vec<CopyRequest> = Vec::new();
        let mut i: usize = 0;
        while i < records.len()
            invariant
                0 <= i <= records@.len(),
                reqs@.len() == i,
                forall|q: int|
                    0 <= q < i ==> {
                        &&& (#[trigger] reqs@[q]).source_bucket@ == self.bucket@
                        &&& reqs@[q].source_key@ == records@[q].key@
                        &&& reqs@[q].bucket@ == (match dest_bucket {
                            Option::Some(b) => b@,
                            Option::None => self.bucket@,
                        })
                        &&& reqs@[q].key@ == mapping.spec_apply(records@[q].key@)
                        &&& reqs@[q].size == records@[q].size
                    },
            decreases records@.len() - i,
        {
            let dest: String = match dest_bucket {
                Option::Some(b) => (*b).clone(),
                Option::None => self.bucket.clone(),
            };
            reqs.push(CopyRequest {
                source_bucket: self.bucket.clone(),
                source_key: records[i].key.clone(),
                bucket: dest,
                key: mapping.apply(records[i].key.as_str()),
                size: records[i].size,
            });
            i = i + 1;
        }
        reqs
    }

    /// A copy paired with a delete of the source, per record: the copy
    /// as in [`Self::copy_all`], and, once it has succeeded, the
    /// delete of the source bucket/key.  Each pair completes before
    /// the next begins.
    pub fn move_all(&self, records: &Vec<ObjectRecord>, dest_bucket: Option<&String>, mapping:
        &KeyMapping) -> (plan: Vec<(CopyRequest, DeleteRequest)>)
        ensures
            plan@.len() == records@.len(),
            forall|i: int|
                0 <= i < plan@.len() ==> {
                    &&& (#[trigger] plan@[i]).0.source_bucket@ == self.bucket@
                    &&& plan@[i].0.source_key@ == records@[i].key@
                    &&& plan@[i].0.bucket@ == (match dest_bucket {
                        Option::Some(b) => b@,
                        Option::None => self.bucket@,
                    })
                    &&& plan@[i].0.key@ == mapping.spec_apply(records@[i].key@)
                    &&& plan@[i].0.size == records@[i].size
                    &&& plan@[i].1.bucket@ == self.bucket@
                    &&& plan@[i].1.key@ == records@[i].key@
                },
    {
        let copies = self.copy_all(records, dest_bucket, mapping);
        let mut plan: Vec<(CopyRequest, DeleteRequest)> = Vec::new();
        let mut i: usize = 0;
        while i < copies.len()
            invariant
                0 <= i <= copies@.len(),
                copies@.len() == records@.len(),
                plan@.len() == i,
                forall|q: int|
                    0 <= q < copies@.len() ==> {
                        &&& (#[trigger] copies@[q]).source_bucket@ == self.bucket@
                        &&& copies@[q].source_key@ == records@[q].key@
                        &&& copies@[q].bucket@ == (match dest_bucket {
                            Option::Some(b) => b@,
                            Option::None => self.bucket@,
                        })
                        &&& copies@[q].key@ == mapping.spec_apply(records@[q].key@)
                        &&& copies@[q].size == records@[q].size
                    },
                forall|q: int|
                    0 <= q < i ==> {
                        &&& (#[trigger] plan@[q]).0 == copies@[q]
                        &&& plan@[q].1.bucket@ == self.bucket@
                        &&& plan@[q].1.key@ == records@[q].key@
                    },
            decreases copies@.len() - i,
        {
            let copy = CopyRequest {
                source_bucket: copies[i].source_bucket.clone(),
                source_key: copies[i].source_key.clone(),
                bucket: copies[i].bucket.clone(),
                key: copies[i].key.clone(),
                size: copies[i].size,
            };
            let delete = DeleteRequest {
                bucket: self.bucket.clone(),
                key: records[i].key.clone(),
            };
            proof {
                assert(copy == copies@[i as int]);
            }
            plan.push((copy, delete));
            i = i + 1;
        }
        plan
    }

    /// Move every listed object by substituting this listing's common
    /// prefix with `new_prefix`: each key `prefix + rest` is copied to
    /// `new_prefix + rest` (in `dest_bucket`, or here when absent) and
    /// the source is then deleted.
    pub fn move_to_prefix(&self, records: &Vec<ObjectRecord>, dest_bucket: Option<&String>,
        new_prefix: String) -> (plan: Vec<(CopyRequest, DeleteRequest)>)
        ensures
            plan@.len() == records@.len(),
            forall|i: int|
                0 <= i < plan@.len() ==> {
                    &&& (#[trigger] plan@[i]).0.source_bucket@ == self.bucket@
                    &&& plan@[i].0.source_key@ == records@[i].key@
                    &&& plan@[i].0.bucket@ == (match dest_bucket {
                        Option::Some(b) => b@,
                        Option::None => self.bucket@,
                    })
                    &&& plan@[i].0.key@ == (if self.prefix@.is_prefix_of(records@[i].key@) {
                        new_prefix@ + records@[i].key@.skip(self.prefix@.len() as int)
                    } else {
                        new_prefix@ + records@[i].key@
                    })
                    &&& plan@[i].0.size == records@[i].size
                    &&& plan@[i].1.bucket@ == self.bucket@
                    &&& plan@[i].1.key@ == records@[i].key@
                },
    {
        let mapping = KeyMapping::SubstitutePrefix {
            old_prefix: self.prefix.clone(),
            new_prefix,
        };
        self.move_all(records, dest_bucket, &mapping)
    }
}

/// Entry point for listing operations: carries the configuration that
/// each listing inherits.
#[derive(Debug)]
pub struct S3Algo {
    pub config: Config,
}

impl S3Algo {
    pub fn new(config: Config) -> (a: S3Algo)
        requires
            config.well_formed(),
        ensures
            a.config == config,
            a.config.well_formed(),
    {
        S3Algo { config }
    }

    /// Begin listing every object of `bucket`: the first request is
    /// still owed and carries no continuation token.
    pub fn list_objects(&self, bucket: String) -> (l: ListObjects)
        ensures
            l.config == self.config,
            l.bucket == bucket,
            l.prefix@ == Seq::<char>::empty(),
            l.spec_first(),
            l.spec_token() is None,
            !l.done(),
    {
        ListObjects::new(self.config.clone(), bucket, String::new())
    }

    /// Begin listing the objects of `bucket` under `prefix`.
    pub fn list_prefix(&self, bucket: String, prefix: String) -> (l: ListObjects)
        ensures
            l.config == self.config,
            l.bucket == bucket,
            l.prefix == prefix,
            l.spec_first(),
            l.spec_token() is None,
            !l.done(),
    {
        ListObjects::new(self.config.clone(), bucket, prefix)
    }
}

} // verus!
