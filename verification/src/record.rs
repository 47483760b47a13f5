//! Log record metadata used for filtering.
use vstd::prelude::*;

use crate::level::Level;
use crate::kv::KeyValues;
use crate::str::RefStr;

use std::borrow::Cow;
use std::time::SystemTime;

verus! {

/// A minimal set of criteria for pre-filtering purposes.
#[derive(Clone, Copy, Debug)]
pub struct FilterCriteria<'a> {
    level: Level,
    target: &'a str,
}

impl<'a> FilterCriteria<'a> {
    /// The level of the criteria.
    pub closed spec fn spec_level(&self) -> Level {
        self.level
    }

    /// The target of the criteria.
    pub closed spec fn spec_target(&self) -> Seq<char> {
        self.target@
    }

    /// Get the level.
    pub fn level(&self) -> (r: Level)
        ensures
            r == self.spec_level(),
    {
        self.level
    }

    /// Get the target.
    pub fn target(&self) -> (r: &'a str)
        ensures
            r@ == self.spec_target(),
    {
        self.target
    }

    /// Create a builder initialized with the current criteria's values.
    pub fn to_builder(&self) -> (r: FilterCriteriaBuilder<'a>)
        ensures
            r.spec_level() == self.spec_level(),
            r.spec_target() == self.spec_target(),
    {
        FilterCriteriaBuilder { metadata: FilterCriteria { level: self.level, target: self.target } }
    }

    /// Return a brand-new builder, with level `Info` and an empty target.
    pub fn builder() -> (r: FilterCriteriaBuilder<'a>)
        ensures
            r.spec_level() == Level::Info,
            r.spec_target() == Seq::<char>::empty(),
    {
        FilterCriteriaBuilder::new()
    }
}

/// Builder for [`FilterCriteria`].
#[derive(Debug)]
pub struct FilterCriteriaBuilder<'a> {
    metadata: FilterCriteria<'a>,
}

impl<'a> FilterCriteriaBuilder<'a> {
    /// The level that the builder holds.
    pub closed spec fn spec_level(&self) -> Level {
        self.metadata.level
    }

    /// The target that the builder holds.
    pub closed spec fn spec_target(&self) -> Seq<char> {
        self.metadata.target@
    }

    /// A builder with level `Info` and an empty target.
    pub fn new() -> (r: FilterCriteriaBuilder<'a>)
        ensures
            r.spec_level() == Level::Info,
            r.spec_target() == Seq::<char>::empty(),
    {
        let t = "";
        proof {
            reveal_strlit("");
        }
        assert(t@ =~= Seq::<char>::empty());
        FilterCriteriaBuilder { metadata: FilterCriteria { level: Level::Info, target: t } }
    }

    /// Setter for the level.
    pub fn level(self, arg: Level) -> (r: FilterCriteriaBuilder<'a>)
        ensures
            r.spec_level() == arg,
            r.spec_target() == self.spec_target(),
    {
        FilterCriteriaBuilder { metadata: FilterCriteria { level: arg, target: self.metadata.target } }
    }

    /// Setter for the target.
    pub fn target(self, target: &'a str) -> (r: FilterCriteriaBuilder<'a>)
        ensures
            r.spec_level() == self.spec_level(),
            r.spec_target() == target@,
    {
        FilterCriteriaBuilder { metadata: FilterCriteria { level: self.metadata.level, target } }
    }

    /// Invoke the builder and return the criteria.
    pub fn build(self) -> (r: FilterCriteria<'a>)
        ensures
            r.spec_level() == self.spec_level(),
            r.spec_target() == self.spec_target(),
    {
        self.metadata
    }
}

/// Reads the system clock with `SystemTime::now`. Nothing is stated of the time it gives.
#[verifier::external_body]
pub(crate) fn system_time_now() -> SystemTime {
    SystemTime::now()
}

/// The last component of a path, with `std::path::Path::file_name`, read as a string. Path
/// syntax depends on the platform, so nothing is stated of the result.
#[verifier::external_body]
fn path_file_name<'a>(path: &'a str) -> Option<Cow<'a, str>> {
    match std::path::Path::new(path).file_name() {
        Some(n) => Some(n.to_string_lossy()),
        None => None,
    }
}

/// A log record: when, how severe, where from, the message, and structured key-values.
pub struct Record<'a> {
    now: SystemTime,
    level: Level,
    target: RefStr<'a>,
    module_name: Option<RefStr<'a>>,
    file: Option<RefStr<'a>>,
    line: Option<u32>,
    payload: Cow<'static, str>,
    kvs: KeyValues<'a>,
}

impl<'a> Record<'a> {
    pub closed spec fn spec_time(&self) -> SystemTime {
        self.now
    }

    pub closed spec fn spec_level(&self) -> Level {
        self.level
    }

    pub closed spec fn spec_target(&self) -> RefStr<'a> {
        self.target
    }

    pub closed spec fn spec_module_name(&self) -> Option<RefStr<'a>> {
        self.module_name
    }

    pub closed spec fn spec_file(&self) -> Option<RefStr<'a>> {
        self.file
    }

    pub closed spec fn spec_line(&self) -> Option<u32> {
        self.line
    }

    /// The message, and whether it is a `'static` string.
    pub closed spec fn spec_payload(&self) -> (Seq<char>, bool) {
        (self.payload@, self.payload is Borrowed)
    }

    pub closed spec fn spec_kvs(&self) -> KeyValues<'a> {
        self.kvs
    }

    /// The observed time.
    pub fn time(&self) -> (r: SystemTime)
        ensures
            r == self.spec_time(),
    {
        self.now
    }

    /// The verbosity level of the message.
    pub fn level(&self) -> (r: Level)
        ensures
            r == self.spec_level(),
    {
        self.level
    }

    /// The name of the target of the directive.
    pub fn target(&self) -> (r: &'a str)
        ensures
            r@ == self.spec_target().text(),
    {
        self.target.get()
    }

    /// The target with its lifetime.
    pub(crate) fn target_ref(&self) -> (r: RefStr<'a>)
        ensures
            r == self.spec_target(),
    {
        self.target
    }

    /// The name of the target of the directive, if it is a `'static` str.
    pub fn target_static(&self) -> (r: Option<&'a str>)
        ensures
            r is Some <==> self.spec_target().is_static(),
            r matches Some(s) ==> s@ == self.spec_target().text(),
    {
        match self.target.get_static() {
            Some(s) => Some(s),
            None => None,
        }
    }

    /// The module path of the message.
    pub fn module_name(&self) -> (r: Option<&'a str>)
        ensures
            r is Some <==> self.spec_module_name() is Some,
            r matches Some(s) ==> s@ == self.spec_module_name()->0.text(),
    {
        match self.module_name {
            Some(p) => Some(p.get()),
            None => None,
        }
    }

    /// The module path of the message, if it is a `'static` str.
    pub fn module_name_static(&self) -> (r: Option<&'static str>)
        ensures
            r is Some <==> (self.spec_module_name() matches Some(p) && p.is_static()),
            r matches Some(s) ==> s@ == self.spec_module_name()->0.text(),
    {
        match self.module_name {
            Some(p) => p.get_static(),
            None => None,
        }
    }

    /// The source file containing the message.
    pub fn file(&self) -> (r: Option<&'a str>)
        ensures
            r is Some <==> self.spec_file() is Some,
            r matches Some(s) ==> s@ == self.spec_file()->0.text(),
    {
        match self.file {
            Some(p) => Some(p.get()),
            None => None,
        }
    }

    /// The source file containing the message, if it is a `'static` str.
    pub fn file_static(&self) -> (r: Option<&'static str>)
        ensures
            r is Some <==> (self.spec_file() matches Some(p) && p.is_static()),
            r matches Some(s) ==> s@ == self.spec_file()->0.text(),
    {
        match self.file {
            Some(p) => p.get_static(),
            None => None,
        }
    }

    /// The file name of the source file: the last component of its path; empty when the record
    /// has no file or its path ends in no file name.
    pub fn filename(&self) -> (r: Cow<'a, str>)
        ensures
            self.spec_file() is None ==> r@ == Seq::<char>::empty(),
    {
        proof {
            reveal_strlit("");
        }
        match self.file {
            None => Cow::Borrowed(""),
            Some(p) => match path_file_name(p.get()) {
                Some(n) => n,
                None => Cow::Borrowed(""),
            },
        }
    }

    /// The line containing the message.
    pub fn line(&self) -> (r: Option<u32>)
        ensures
            r == self.spec_line(),
    {
        self.line
    }

    /// The message body.
    pub fn payload(&self) -> (r: &str)
        ensures
            r@ == self.spec_payload().0,
    {
        match &self.payload {
            Cow::Borrowed(s) => s,
            Cow::Owned(s) => s.as_str(),
        }
    }

    /// The message body, if it is a `'static` str.
    pub fn payload_static(&self) -> (r: Option<&'static str>)
        ensures
            r is Some <==> self.spec_payload().1,
            r matches Some(s) ==> s@ == self.spec_payload().0,
    {
        match &self.payload {
            Cow::Borrowed(s) => Some(s),
            Cow::Owned(_) => None,
        }
    }

    /// The key-values.
    pub fn key_values(&self) -> (r: &KeyValues<'a>)
        ensures
            *r == self.spec_kvs(),
    {
        &self.kvs
    }

    /// Create a builder initialized with the current record's values.
    pub fn to_builder(&self) -> (r: RecordBuilder<'a>)
        ensures
            r.spec_record().spec_time() == self.spec_time(),
            r.spec_record().spec_level() == self.spec_level(),
            r.spec_record().spec_target() == self.spec_target(),
            r.spec_record().spec_module_name() == self.spec_module_name(),
            r.spec_record().spec_file() == self.spec_file(),
            r.spec_record().spec_line() == self.spec_line(),
            r.spec_record().spec_payload() == self.spec_payload(),
            r.spec_record().spec_kvs() == self.spec_kvs(),
    {
        let payload: Cow<'static, str> = match &self.payload {
            Cow::Borrowed(s) => Cow::Borrowed(s),
            Cow::Owned(s) => Cow::Owned(s.clone()),
        };
        RecordBuilder {
            record: Record {
                now: self.now,
                level: self.level,
                target: self.target,
                module_name: self.module_name,
                file: self.file,
                line: self.line,
                payload,
                kvs: self.kvs,
            },
        }
    }

    /// Returns a new builder: level `Info`, an empty `'static` target and message, no module
    /// path, file, line or key-values, and the time at which it is called.
    pub fn builder() -> (r: RecordBuilder<'a>)
        ensures
            r.spec_record().spec_level() == Level::Info,
            r.spec_record().spec_target() == RefStr::<'a>::Static(""),
            r.spec_record().spec_module_name() is None,
            r.spec_record().spec_file() is None,
            r.spec_record().spec_line() is None,
            r.spec_record().spec_payload() == (""@, true),
            r.spec_record().spec_kvs().entries().len() == 0,
    {
        RecordBuilder::new()
    }
}

/// Builder for [`Record`].
pub struct RecordBuilder<'a> {
    record: Record<'a>,
}

impl<'a> RecordBuilder<'a> {
    /// The record that `build` returns.
    pub closed spec fn spec_record(&self) -> Record<'a> {
        self.record
    }

    /// A builder with level `Info`, an empty `'static` target and message, no module path, file,
    /// line or key-values, and the time at which it is called.
    pub fn new() -> (r: RecordBuilder<'a>)
        ensures
            r.spec_record().spec_level() == Level::Info,
            r.spec_record().spec_target() == RefStr::<'a>::Static(""),
            r.spec_record().spec_module_name() is None,
            r.spec_record().spec_file() is None,
            r.spec_record().spec_line() is None,
            r.spec_record().spec_payload() == (""@, true),
            r.spec_record().spec_kvs().entries().len() == 0,
    {
        RecordBuilder {
            record: Record {
                now: system_time_now(),
                level: Level::Info,
                target: RefStr::Static(""),
                module_name: None,
                file: None,
                line: None,
                payload: Cow::Borrowed(""),
                kvs: KeyValues::empty(),
            },
        }
    }

    /// Set the message.
    pub fn payload(self, payload: Cow<'static, str>) -> (r: RecordBuilder<'a>)
        ensures
            r.spec_record().spec_payload() == (payload@, payload is Borrowed),
            r.spec_record().spec_time() == self.spec_record().spec_time(),
            r.spec_record().spec_level() == self.spec_record().spec_level(),
            r.spec_record().spec_target() == self.spec_record().spec_target(),
            r.spec_record().spec_module_name() == self.spec_record().spec_module_name(),
            r.spec_record().spec_file() == self.spec_record().spec_file(),
            r.spec_record().spec_line() == self.spec_record().spec_line(),
            r.spec_record().spec_kvs() == self.spec_record().spec_kvs(),
    {
        RecordBuilder { record: Record { payload, ..self.record } }
    }

    /// Set the observed time.
    pub fn time(self, now: SystemTime) -> (r: RecordBuilder<'a>)
        ensures
            r.spec_record().spec_time() == now,
            r.spec_record().spec_level() == self.spec_record().spec_level(),
            r.spec_record().spec_target() == self.spec_record().spec_target(),
            r.spec_record().spec_module_name() == self.spec_record().spec_module_name(),
            r.spec_record().spec_file() == self.spec_record().spec_file(),
            r.spec_record().spec_line() == self.spec_record().spec_line(),
            r.spec_record().spec_payload() == self.spec_record().spec_payload(),
            r.spec_record().spec_kvs() == self.spec_record().spec_kvs(),
    {
        RecordBuilder { record: Record { now, ..self.record } }
    }

    /// Set the level.
    pub fn level(self, level: Level) -> (r: RecordBuilder<'a>)
        ensures
            r.spec_record().spec_level() == level,
            r.spec_record().spec_time() == self.spec_record().spec_time(),
            r.spec_record().spec_target() == self.spec_record().spec_target(),
            r.spec_record().spec_module_name() == self.spec_record().spec_module_name(),
            r.spec_record().spec_file() == self.spec_record().spec_file(),
            r.spec_record().spec_line() == self.spec_record().spec_line(),
            r.spec_record().spec_payload() == self.spec_record().spec_payload(),
            r.spec_record().spec_kvs() == self.spec_record().spec_kvs(),
    {
        RecordBuilder { record: Record { level, ..self.record } }
    }

    /// Set the target.
    pub fn target(self, target: &'a str) -> (r: RecordBuilder<'a>)
        ensures
            r.spec_record().spec_target() == RefStr::Borrowed(target),
            r.spec_record().spec_time() == self.spec_record().spec_time(),
            r.spec_record().spec_level() == self.spec_record().spec_level(),
            r.spec_record().spec_module_name() == self.spec_record().spec_module_name(),
            r.spec_record().spec_file() == self.spec_record().spec_file(),
            r.spec_record().spec_line() == self.spec_record().spec_line(),
            r.spec_record().spec_payload() == self.spec_record().spec_payload(),
            r.spec_record().spec_kvs() == self.spec_record().spec_kvs(),
    {
        RecordBuilder { record: Record { target: RefStr::Borrowed(target), ..self.record } }
    }

    /// Set the target to a `'static` string.
    pub fn target_static(self, target: &'static str) -> (r: RecordBuilder<'a>)
        ensures
            r.spec_record().spec_target() == RefStr::<'a>::Static(target),
            r.spec_record().spec_time() == self.spec_record().spec_time(),
            r.spec_record().spec_level() == self.spec_record().spec_level(),
            r.spec_record().spec_module_name() == self.spec_record().spec_module_name(),
            r.spec_record().spec_file() == self.spec_record().spec_file(),
            r.spec_record().spec_line() == self.spec_record().spec_line(),
            r.spec_record().spec_payload() == self.spec_record().spec_payload(),
            r.spec_record().spec_kvs() == self.spec_record().spec_kvs(),
    {
        RecordBuilder { record: Record { target: RefStr::Static(target), ..self.record } }
    }

    /// Set the module path.
    pub fn module_name(self, path: Option<&'a str>) -> (r: RecordBuilder<'a>)
        ensures
            r.spec_record().spec_module_name() == (match path {
                Some(p) => Some(RefStr::Borrowed(p)),
                None => None,
            }),
            r.spec_record().spec_time() == self.spec_record().spec_time(),
            r.spec_record().spec_level() == self.spec_record().spec_level(),
            r.spec_record().spec_target() == self.spec_record().spec_target(),
            r.spec_record().spec_file() == self.spec_record().spec_file(),
            r.spec_record().spec_line() == self.spec_record().spec_line(),
            r.spec_record().spec_payload() == self.spec_record().spec_payload(),
            r.spec_record().spec_kvs() == self.spec_record().spec_kvs(),
    {
        let module_name = match path {
            Some(p) => Some(RefStr::Borrowed(p)),
            None => None,
        };
        RecordBuilder { record: Record { module_name, ..self.record } }
    }

    /// Set the module path to a `'static` string.
    pub fn module_name_static(self, path: &'static str) -> (r: RecordBuilder<'a>)
        ensures
            r.spec_record().spec_module_name() == Some(RefStr::<'a>::Static(path)),
            r.spec_record().spec_time() == self.spec_record().spec_time(),
            r.spec_record().spec_level() == self.spec_record().spec_level(),
            r.spec_record().spec_target() == self.spec_record().spec_target(),
            r.spec_record().spec_file() == self.spec_record().spec_file(),
            r.spec_record().spec_line() == self.spec_record().spec_line(),
            r.spec_record().spec_payload() == self.spec_record().spec_payload(),
            r.spec_record().spec_kvs() == self.spec_record().spec_kvs(),
    {
        RecordBuilder { record: Record { module_name: Some(RefStr::Static(path)), ..self.record } }
    }

    /// Set the file.
    pub fn file(self, file: Option<&'a str>) -> (r: RecordBuilder<'a>)
        ensures
            r.spec_record().spec_file() == (match file {
                Some(p) => Some(RefStr::Borrowed(p)),
                None => None,
            }),
            r.spec_record().spec_time() == self.spec_record().spec_time(),
            r.spec_record().spec_level() == self.spec_record().spec_level(),
            r.spec_record().spec_target() == self.spec_record().spec_target(),
            r.spec_record().spec_module_name() == self.spec_record().spec_module_name(),
            r.spec_record().spec_line() == self.spec_record().spec_line(),
            r.spec_record().spec_payload() == self.spec_record().spec_payload(),
            r.spec_record().spec_kvs() == self.spec_record().spec_kvs(),
    {
        let file = match file {
            Some(p) => Some(RefStr::Borrowed(p)),
            None => None,
        };
        RecordBuilder { record: Record { file, ..self.record } }
    }

    /// Set the file to a `'static` string.
    pub fn file_static(self, file: &'static str) -> (r: RecordBuilder<'a>)
        ensures
            r.spec_record().spec_file() == Some(RefStr::<'a>::Static(file)),
            r.spec_record().spec_time() == self.spec_record().spec_time(),
            r.spec_record().spec_level() == self.spec_record().spec_level(),
            r.spec_record().spec_target() == self.spec_record().spec_target(),
            r.spec_record().spec_module_name() == self.spec_record().spec_module_name(),
            r.spec_record().spec_line() == self.spec_record().spec_line(),
            r.spec_record().spec_payload() == self.spec_record().spec_payload(),
            r.spec_record().spec_kvs() == self.spec_record().spec_kvs(),
    {
        RecordBuilder { record: Record { file: Some(RefStr::Static(file)), ..self.record } }
    }

    /// Set the line.
    pub fn line(self, line: Option<u32>) -> (r: RecordBuilder<'a>)
        ensures
            r.spec_record().spec_line() == line,
            r.spec_record().spec_time() == self.spec_record().spec_time(),
            r.spec_record().spec_level() == self.spec_record().spec_level(),
            r.spec_record().spec_target() == self.spec_record().spec_target(),
            r.spec_record().spec_module_name() == self.spec_record().spec_module_name(),
            r.spec_record().spec_file() == self.spec_record().spec_file(),
            r.spec_record().spec_payload() == self.spec_record().spec_payload(),
            r.spec_record().spec_kvs() == self.spec_record().spec_kvs(),
    {
        RecordBuilder { record: Record { line, ..self.record } }
    }

    /// Set the key-values.
    pub fn key_values(self, kvs: KeyValues<'a>) -> (r: RecordBuilder<'a>)
        ensures
            r.spec_record().spec_kvs() == kvs,
            r.spec_record().spec_time() == self.spec_record().spec_time(),
            r.spec_record().spec_level() == self.spec_record().spec_level(),
            r.spec_record().spec_target() == self.spec_record().spec_target(),
            r.spec_record().spec_module_name() == self.spec_record().spec_module_name(),
            r.spec_record().spec_file() == self.spec_record().spec_file(),
            r.spec_record().spec_line() == self.spec_record().spec_line(),
            r.spec_record().spec_payload() == self.spec_record().spec_payload(),
    {
        RecordBuilder { record: Record { kvs, ..self.record } }
    }

    /// Invoke the builder and return a `Record`.
    pub fn build(self) -> (r: Record<'a>)
        ensures
            r == self.spec_record(),
    {
        self.record
    }
}

} // verus!
