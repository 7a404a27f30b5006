//! The registry of buckets: its mathematical model and the operations on it.

use crate::errors::{ErrorKind, ErrorView, ZugzugError};
use crate::naming::{dated_name, dir_name, Date};
use crate::registry::{
    lemma_add_wf, lemma_find_first, lemma_find_none, lemma_forget_wf, named, not_named,
    BucketView, RegistryView,
};
use std::path::PathBuf;
use vstd::prelude::*;

verus! {

/// `std::path::PathBuf`, which the registry carries as the place it belongs
/// to without looking inside.
#[verifier::external_type_specification]
#[verifier::external_body]
pub struct ExPathBuf(std::path::PathBuf);

/// A named base directory under which dated directories are created.
#[derive(Debug, PartialEq, Eq)]
pub struct Bucket {
    pub name: String,
    pub path: String,
}

impl View for Bucket {
    type V = BucketView;

    open spec fn view(&self) -> BucketView {
        BucketView { name: self.name@, path: self.path@ }
    }
}

impl Clone for Bucket {
    fn clone(&self) -> (copy: Bucket)
        ensures
            copy@ == self@,
    {
        Bucket { name: self.name.clone(), path: self.path.clone() }
    }
}

/// The error that says that the directory to be made is already there.
pub open spec fn path_exists() -> ErrorView {
    ErrorView { kind: ErrorKind::PathExists, details: "Path already exists"@ }
}

impl Bucket {
    /// Decides on the directory that is made in this bucket for `name` on the
    /// day `date`, and gives its name; the caller joins it to the bucket's
    /// path and creates it. `exists` says whether that path is already
    /// there: then nothing may be created, and the call fails.
    pub fn make_dir(&self, name: &str, date: &Date, exists: bool) -> (made: Result<
        String,
        ZugzugError,
    >)
        ensures
            match made {
                Ok(dir) => !exists && dir@ == dated_name(*date, name@),
                Err(err) => exists && err@ == path_exists(),
            },
    {
        if exists {
            Err(ZugzugError::new(ErrorKind::PathExists, "Path already exists"))
        } else {
            Ok(dir_name(date, name))
        }
    }
}

/// A text that may be missing, as a mathematical value.
pub open spec fn text_view(text: Option<&str>) -> Option<Seq<char>> {
    match text {
        Some(t) => Some(t@),
        None => None,
    }
}

/// The buckets of a vector, each as a mathematical value.
pub open spec fn bucket_views(buckets: Seq<Bucket>) -> Seq<BucketView> {
    buckets.map_values(|b: Bucket| b@)
}

/// Copies of those of `buckets` that are called `name`, where `keep` is set,
/// and else of those that are not, in the order in which they stand.
fn copy_by_name(buckets: &Vec<Bucket>, name: &str, keep: bool) -> (copies: Vec<Bucket>)
    ensures
        bucket_views(copies@) == bucket_views(buckets@).filter(
            if keep {
                named(name@)
            } else {
                not_named(name@)
            },
        ),
{
    let wanted = name.to_owned();
    let ghost all = bucket_views(buckets@);
    let ghost test = if keep {
        named(name@)
    } else {
        not_named(name@)
    };
    let mut copies: Vec<Bucket> = Vec::new();
    let mut i: usize = 0;
    while i < buckets.len()
        invariant
            i <= buckets.len(),
            wanted@ == name@,
            all == bucket_views(buckets@),
            test == if keep {
                named(name@)
            } else {
                not_named(name@)
            },
            bucket_views(copies@) == all.take(i as int).filter(test),
        decreases buckets.len() - i,
    {
        proof {
            assert(all.take(i + 1) =~= all.take(i as int).push(all[i as int]));
            all.take(i as int).lemma_filter_push(all[i as int], test);
        }
        if (buckets[i].name == wanted) == keep {
            copies.push(buckets[i].clone());
            assert(bucket_views(copies@) =~= all.take(i as int).filter(test).push(all[i as int]));
        }
        i += 1;
    }
    assert(all.take(i as int) =~= all);
    copies
}

/// The registry as it is written to its file.
#[derive(Debug, PartialEq, Eq)]
pub struct StoreData {
    pub default_bucket: Option<String>,
    pub buckets: Vec<Bucket>,
}

impl View for StoreData {
    type V = RegistryView;

    open spec fn view(&self) -> RegistryView {
        RegistryView {
            default_bucket: match self.default_bucket {
                Some(name) => Some(name@),
                None => None,
            },
            buckets: bucket_views(self.buckets@),
        }
    }
}

/// The name of the registry file inside the home directory.
pub const STORE_FILE: &'static str = ".zz.json";

/// The registry of one user, and the directory it is kept in.
///
/// A registry that this library has made has a default only where a bucket
/// has the default's name. One that was read from a file may name a default
/// that no bucket has: every operation takes it as it is, and the default
/// then stands for no bucket.
pub struct Store {
    location: PathBuf,
    data: StoreData,
}

impl View for Store {
    type V = RegistryView;

    closed spec fn view(&self) -> RegistryView {
        self.data@
    }
}

/// The error that says that no bucket has the name that was asked for.
pub open spec fn bucket_not_found() -> ErrorView {
    ErrorView { kind: ErrorKind::BucketNotFound, details: "Bucket doesn't exist"@ }
}

/// The error that says that the home directory is unknown.
pub open spec fn store_unavailable() -> ErrorView {
    ErrorView { kind: ErrorKind::StoreUnavailable, details: "Could not get home directory"@ }
}

/// `dirs::home_dir`: the home directory of the user who runs the program, as
/// `HOME` or the user database gives it, or nothing where neither does.
/// Nothing is claimed of the answer.
#[verifier::external_body]
fn home_dir() -> Option<PathBuf> {
    dirs::home_dir()
}

impl Store {
    /// The directory that holds the registry file.
    pub closed spec fn spec_location(&self) -> &PathBuf {
        &self.location
    }

    /// The directory that holds the registry file.
    #[verifier::when_used_as_spec(spec_location)]
    pub fn location(&self) -> (location: &PathBuf)
        ensures
            location == self.spec_location(),
    {
        &self.location
    }

    /// The registry as it is written to its file.
    pub fn data(&self) -> (data: &StoreData)
        ensures
            data@ == self@,
    {
        &self.data
    }

    /// Takes over what was read from the registry file. It is taken as it
    /// is: a default that belongs to no bucket is kept.
    pub fn restore(&mut self, data: StoreData)
        ensures
            final(self).location() == old(self).location(),
            final(self)@ == data@,
    {
        self.data = data;
    }

    /// An empty registry in the home directory `home`, or the failure to find
    /// one where `home` is nothing.
    pub fn in_home(home: Option<PathBuf>) -> (made: Result<Store, ZugzugError>)
        ensures
            match home {
                Some(location) => made matches Ok(store) && store@ == RegistryView::empty()
                    && *store.location() == location,
                None => made matches Err(err) && err@ == store_unavailable(),
            },
    {
        match home {
            Some(location) => Ok(Store::new(location)),
            None => Err(
                ZugzugError::new(ErrorKind::StoreUnavailable, "Could not get home directory"),
            ),
        }
    }

    /// An empty registry in the home directory of the user who runs the
    /// program. Whether there is such a directory is for the system to say.
    pub fn from_home() -> (made: Result<Store, ZugzugError>)
        ensures
            match made {
                Ok(store) => store@ == RegistryView::empty(),
                Err(err) => err@ == store_unavailable(),
            },
    {
        Store::in_home(home_dir())
    }

    /// An empty registry that is kept in `location`.
    pub fn new(location: PathBuf) -> (store: Store)
        ensures
            store@ == RegistryView::empty(),
            store@.wf(),
            *store.location() == location,
    {
        let buckets: Vec<Bucket> = Vec::new();
        let store = Store {
            location: location,
            data: StoreData { default_bucket: None, buckets: buckets },
        };
        assert(store.data@.buckets =~= Seq::empty());
        store
    }

    /// The first bucket called `name`, in the order in which the buckets
    /// were added.
    pub fn find_bucket(&self, name: &str) -> (found: Option<&Bucket>)
        ensures
            match found {
                Some(bucket) => self@.find(name@) == Some(bucket@),
                None => self@.find(name@) is None,
            },
    {
        let wanted = name.to_owned();
        let mut i: usize = 0;
        while i < self.data.buckets.len()
            invariant
                i <= self.data.buckets.len(),
                wanted@ == name@,
                forall|j: int| 0 <= j < i ==> (#[trigger] self.data.buckets[j]).name@ != name@,
            decreases self.data.buckets.len() - i,
        {
            if self.data.buckets[i].name == wanted {
                proof {
                    lemma_find_first(self@.buckets, name@, i as int);
                }
                return Some(&self.data.buckets[i]);
            }
            i += 1;
        }
        proof {
            lemma_find_none(self@.buckets, name@);
        }
        None
    }

    /// The bucket that is used when none is chosen: the first bucket that
    /// has the default name. There is none when no default is set or when no
    /// bucket has that name any more.
    pub fn default_bucket(&self) -> (found: Option<&Bucket>)
        ensures
            match found {
                Some(bucket) => self@.default() == Some(bucket@),
                None => self@.default() is None,
            },
    {
        match &self.data.default_bucket {
            Some(name) => self.find_bucket(name.as_str()),
            None => None,
        }
    }

    /// The bucket that a command works in: the one called `chosen`, or the
    /// default where nothing is chosen.
    pub fn bucket_for(&self, chosen: Option<&str>) -> (found: Option<&Bucket>)
        ensures
            match found {
                Some(bucket) => self@.bucket_for(text_view(chosen)) == Some(bucket@),
                None => self@.bucket_for(text_view(chosen)) is None,
            },
    {
        match chosen {
            Some(name) => self.find_bucket(name),
            None => self.default_bucket(),
        }
    }

    /// Copies of the buckets that a listing shows: all of them, or those
    /// called `only`, in registry order.
    pub fn select_buckets(&self, only: Option<&str>) -> (chosen: Vec<Bucket>)
        ensures
            bucket_views(chosen@) == self@.select(text_view(only)),
    {
        match only {
            None => self.buckets(),
            Some(name) => copy_by_name(&self.data.buckets, name, true),
        }
    }

    /// Whether `name` is the default and belongs to a bucket.
    pub fn is_default(&self, name: &str) -> (yes: bool)
        ensures
            yes == self@.is_default(name@),
    {
        match self.default_bucket() {
            Some(bucket) => {
                let wanted = name.to_owned();
                bucket.name == wanted
            },
            None => false,
        }
    }

    /// A copy of the buckets, in the order in which they were added.
    pub fn buckets(&self) -> (copy: Vec<Bucket>)
        ensures
            bucket_views(copy@) == self@.buckets,
    {
        let mut copy: Vec<Bucket> = Vec::new();
        let mut i: usize = 0;
        while i < self.data.buckets.len()
            invariant
                i <= self.data.buckets.len(),
                copy@.len() == i,
                forall|j: int| 0 <= j < i ==> (#[trigger] copy@[j])@ == self.data.buckets@[j]@,
            decreases self.data.buckets.len() - i,
        {
            copy.push(self.data.buckets[i].clone());
            i += 1;
        }
        assert(bucket_views(copy@) =~= self@.buckets);
        copy
    }

    /// Makes the bucket called `name` the default. Where no bucket has that
    /// name, the registry stays as it is and the call fails.
    pub fn set_default_bucket(&mut self, name: &str) -> (done: Result<(), ZugzugError>)
        ensures
            final(self).location() == old(self).location(),
            match done {
                Ok(_) => old(self)@.find(name@) is Some && final(self)@ == old(self)@.set_default(
                    name@,
                ) && final(self)@.wf(),
                Err(err) => old(self)@.find(name@) is None && final(self)@ == old(self)@ && err@
                    == bucket_not_found(),
            },
    {
        if self.find_bucket(name).is_some() {
            self.data.default_bucket = Some(name.to_owned());
            Ok(())
        } else {
            Err(ZugzugError::new(ErrorKind::BucketNotFound, "Bucket doesn't exist"))
        }
    }

    /// Clears the default. The buckets stay as they are.
    pub fn unset_default_bucket(&mut self)
        ensures
            final(self).location() == old(self).location(),
            final(self)@ == old(self)@.unset_default(),
            final(self)@.wf(),
    {
        self.data.default_bucket = None;
    }

    /// Adds a bucket at the end, whether or not its name is already in use.
    /// The bucket becomes the default where the registry, with the new bucket
    /// in it, has none.
    pub fn add_bucket(&mut self, name: &str, dir: &str)
        ensures
            final(self).location() == old(self).location(),
            final(self)@ == old(self)@.add(name@, dir@),
            final(self)@.wf(),
    {
        proof {
            lemma_add_wf(old(self)@, name@, dir@);
        }
        self.data.buckets.push(Bucket { name: name.to_owned(), path: dir.to_owned() });
        assert(self@.buckets =~= old(self)@.buckets.push(
            BucketView { name: name@, path: dir@ },
        ));
        if self.default_bucket().is_none() {
            self.data.default_bucket = Some(name.to_owned());
        }
    }

    /// Forgets every bucket called `name`; the others keep their order.
    /// Where `name` was the default, the default is cleared. The
    /// directories themselves are left alone.
    pub fn forget_bucket(&mut self, name: &str)
        ensures
            final(self).location() == old(self).location(),
            final(self)@ == old(self)@.forget(name@),
            old(self)@.wf() ==> final(self)@.wf(),
    {
        proof {
            if old(self)@.wf() {
                lemma_forget_wf(old(self)@, name@);
            }
        }
        if self.is_default(name) {
            self.unset_default_bucket();
        }
        let kept = copy_by_name(&self.data.buckets, name, false);
        self.data.buckets = kept;
    }
}

} // verus!
