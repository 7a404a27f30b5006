//! What the commands on buckets decide: how the registry changes, what the
//! user is told, and whether the registry has to be written.

use crate::errors::{ErrorKind, ErrorView, ZugzugError};
use crate::registry::RegistryView;
use crate::store::{bucket_not_found, text_view, Bucket, Store};
use vstd::prelude::*;

verus! {

/// What a command leaves for the program that runs it.
#[derive(Debug, PartialEq, Eq)]
pub struct Reply {
    /// A line to show to the user.
    pub line: Option<String>,
    /// Whether the registry is to be written to its file.
    pub save: bool,
}

/// A reply as a mathematical value.
pub struct ReplyView {
    pub line: Option<Seq<char>>,
    pub save: bool,
}

impl View for Reply {
    type V = ReplyView;

    open spec fn view(&self) -> ReplyView {
        ReplyView {
            line: match self.line {
                Some(line) => Some(line@),
                None => None,
            },
            save: self.save,
        }
    }
}

/// The reply of a command that changed the registry and has nothing to say.
pub open spec fn saved() -> ReplyView {
    ReplyView { line: None, save: true }
}

/// What is said of a directory that is not there.
pub open spec fn path_missing(dir: Seq<char>) -> Seq<char> {
    "Path does not exist: "@ + dir
}

/// What is said of a name that no bucket has.
pub open spec fn bucket_missing(name: Seq<char>) -> Seq<char> {
    "Bucket '"@ + name + "' does not exist"@
}

/// What is said of the default: the name of the default bucket, or that
/// there is none.
pub open spec fn default_line(registry: RegistryView) -> Seq<char> {
    match registry.default() {
        Some(bucket) => bucket.name,
        None => "Default bucket is not set"@,
    }
}

/// Registers the directory `dir` as a bucket called `name`. `dir_exists`
/// says whether the directory is there. Where it is not, the registry stays
/// as it is and the reply says so.
pub fn bucket_add(store: &mut Store, name: &str, dir: &str, dir_exists: bool) -> (reply: Reply)
    ensures
        final(store).location() == old(store).location(),
        dir_exists ==> final(store)@ == old(store)@.add(name@, dir@) && reply@ == saved(),
        !dir_exists ==> final(store)@ == old(store)@ && reply@ == (ReplyView {
            line: Some(path_missing(dir@)),
            save: false,
        }),
{
    if dir_exists {
        store.add_bucket(name, dir);
        Reply { line: None, save: true }
    } else {
        let mut line = "Path does not exist: ".to_owned();
        line.append(dir);
        Reply { line: Some(line), save: false }
    }
}

/// With a name, makes the bucket of that name the default and fails where
/// there is none. Without a name, tells which bucket is the default.
pub fn bucket_default(store: &mut Store, name: Option<&str>) -> (done: Result<Reply, ZugzugError>)
    ensures
        final(store).location() == old(store).location(),
        match text_view(name) {
            Some(wanted) => match done {
                Ok(reply) => old(store)@.find(wanted) is Some && final(store)@ == old(
                    store,
                )@.set_default(wanted) && reply@ == saved(),
                Err(err) => old(store)@.find(wanted) is None && final(store)@ == old(store)@
                    && err@ == bucket_not_found(),
            },
            None => done matches Ok(reply) && final(store)@ == old(store)@ && reply@
                == (ReplyView { line: Some(default_line(old(store)@)), save: false }),
        },
{
    match name {
        Some(wanted) => {
            match store.set_default_bucket(wanted) {
                Ok(_) => Ok(Reply { line: None, save: true }),
                Err(err) => Err(err),
            }
        },
        None => {
            let line = match store.default_bucket() {
                Some(bucket) => bucket.name.clone(),
                None => "Default bucket is not set".to_owned(),
            };
            Ok(Reply { line: Some(line), save: false })
        },
    }
}

/// Forgets the buckets called `name`. The registry is written in any case;
/// where no bucket had that name, the reply says so.
pub fn bucket_forget(store: &mut Store, name: &str) -> (reply: Reply)
    ensures
        final(store).location() == old(store).location(),
        final(store)@ == old(store)@.forget(name@),
        reply@ == (ReplyView {
            line: if old(store)@.find(name@) is None {
                Some(bucket_missing(name@))
            } else {
                None
            },
            save: true,
        }),
{
    let known = store.find_bucket(name).is_some();
    store.forget_bucket(name);
    if known {
        Reply { line: None, save: true }
    } else {
        let mut line = "Bucket '".to_owned();
        line.append(name);
        line.append("' does not exist");
        Reply { line: Some(line), save: true }
    }
}

/// The error that says that there is no bucket to make a directory in.
pub open spec fn no_bucket() -> ErrorView {
    ErrorView { kind: ErrorKind::BucketNotFound, details: "No bucket to choose from"@ }
}

/// The bucket in which a directory is made: the one called `chosen`, or the
/// default where nothing is chosen. Where there is no such bucket the call
/// fails.
pub fn mkdir_bucket<'a>(store: &'a Store, chosen: Option<&str>) -> (found: Result<
    &'a Bucket,
    ZugzugError,
>)
    ensures
        match found {
            Ok(bucket) => store@.bucket_for(text_view(chosen)) == Some(bucket@),
            Err(err) => store@.bucket_for(text_view(chosen)) is None && err@ == no_bucket(),
        },
{
    match store.bucket_for(chosen) {
        Some(bucket) => Ok(bucket),
        None => Err(ZugzugError::new(ErrorKind::BucketNotFound, "No bucket to choose from")),
    }
}

} // verus!
