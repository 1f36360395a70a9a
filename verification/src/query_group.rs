//! What the declaration of a query says about how the query is stored: the
//! attributes that are recognized, and what they come to together.

use vstd::prelude::*;
use crate::capacity::{capacity_of, parse_capacity};
use crate::names::{camel_case, lookup_fn_name, lookup_query_type_name, query_type_name};

verus! {

/// How the results of a query are stored.
#[derive(Debug)]
pub enum QueryStorage {
    /// Value and inputs are memoized.
    Memoized,
    /// Only the inputs are memoized; the value is computed anew when asked
    /// for in a revision in which the inputs changed.
    Dependencies,
    /// The value is set from outside.
    Input,
    /// The key is interned: the value is the number the key was given.
    Interned,
    /// The query gives back the key that the interned query named
    /// `intern_query_type` interned under a number.
    InternedLookup { intern_query_type: String },
    /// Nothing is stored: the query function is called on every read.
    Transparent,
}

/// A [`QueryStorage`] as a mathematical value.
pub enum StorageView {
    Memoized,
    Dependencies,
    Input,
    Interned,
    InternedLookup { intern_query_type: Seq<char> },
    Transparent,
}

impl View for QueryStorage {
    type V = StorageView;

    open spec fn view(&self) -> StorageView {
        match self {
            QueryStorage::Memoized => StorageView::Memoized,
            QueryStorage::Dependencies => StorageView::Dependencies,
            QueryStorage::Input => StorageView::Input,
            QueryStorage::Interned => StorageView::Interned,
            QueryStorage::InternedLookup { intern_query_type } => StorageView::InternedLookup {
                intern_query_type: intern_query_type@,
            },
            QueryStorage::Transparent => StorageView::Transparent,
        }
    }
}

impl QueryStorage {
    /// Whether a query stored this way is computed by a query function.
    pub fn needs_query_function(&self) -> (needed: bool)
        ensures
            needed == (self@ is Memoized || self@ is Dependencies),
    {
        match self {
            QueryStorage::Input
            | QueryStorage::Interned
            | QueryStorage::InternedLookup { .. }
            | QueryStorage::Transparent => false,
            QueryStorage::Memoized | QueryStorage::Dependencies => true,
        }
    }

    /// Whether a query stored this way can be written to.
    pub fn supports_mut(&self) -> (writable: bool)
        ensures
            writable == (self@ is Input),
    {
        match self {
            QueryStorage::Input => true,
            QueryStorage::Interned
            | QueryStorage::InternedLookup { .. }
            | QueryStorage::Transparent
            | QueryStorage::Memoized
            | QueryStorage::Dependencies => false,
        }
    }

    /// Whether a query stored this way has a table of slots.
    pub fn has_storage(&self) -> (stored: bool)
        ensures
            stored == !(self@ is Transparent),
    {
        match self {
            QueryStorage::Transparent => false,
            _ => true,
        }
    }

    /// A copy of `self`.
    pub fn duplicate(&self) -> (copy: QueryStorage)
        ensures
            copy@ == self@,
    {
        match self {
            QueryStorage::Memoized => QueryStorage::Memoized,
            QueryStorage::Dependencies => QueryStorage::Dependencies,
            QueryStorage::Input => QueryStorage::Input,
            QueryStorage::Interned => QueryStorage::Interned,
            QueryStorage::InternedLookup { intern_query_type } => QueryStorage::InternedLookup {
                intern_query_type: intern_query_type.clone(),
            },
            QueryStorage::Transparent => QueryStorage::Transparent,
        }
    }
}

/// An attribute as written on a trait or a method: the segments of its path,
/// and what follows the path.
#[derive(Debug)]
pub struct Attribute {
    pub path: Vec<String>,
    pub tokens: String,
}

/// An [`Attribute`] as a mathematical value.
pub struct AttributeView {
    pub path: Seq<Seq<char>>,
    pub tokens: Seq<char>,
}

impl View for Attribute {
    type V = AttributeView;

    open spec fn view(&self) -> AttributeView {
        AttributeView { path: Seq::new(self.path@.len(), |i: int| self.path@[i]@), tokens: self.tokens@ }
    }
}

/// An attribute of the engine, `salsa::name`: the name, and what follows it.
#[derive(Debug)]
pub struct SalsaAttr {
    pub name: String,
    pub tts: String,
}

/// A [`SalsaAttr`] as a mathematical value.
pub struct SalsaAttrView {
    pub name: Seq<char>,
    pub tts: Seq<char>,
}

impl View for SalsaAttr {
    type V = SalsaAttrView;

    open spec fn view(&self) -> SalsaAttrView {
        SalsaAttrView { name: self.name@, tts: self.tts@ }
    }
}

/// Whether `path` is that of an attribute of the engine: two segments, the
/// first of them `salsa`.
pub open spec fn is_salsa_attr_path(path: Seq<Seq<char>>) -> bool {
    path.len() == 2 && path[0] == "salsa"@
}

impl AttributeView {
    /// The attribute of the engine that this attribute is.
    pub open spec fn as_salsa(self) -> SalsaAttrView
        recommends
            is_salsa_attr_path(self.path),
    {
        SalsaAttrView { name: self.path[1], tts: self.tokens }
    }
}

/// The attributes among `attrs` that are not the engine's, in their order.
pub open spec fn other_attrs(attrs: Seq<AttributeView>) -> Seq<AttributeView>
    decreases attrs.len(),
{
    if attrs.len() == 0 {
        Seq::empty()
    } else if is_salsa_attr_path(attrs.last().path) {
        other_attrs(attrs.drop_last())
    } else {
        other_attrs(attrs.drop_last()).push(attrs.last())
    }
}

/// The attributes among `attrs` that are the engine's, in their order.
pub open spec fn salsa_attrs(attrs: Seq<AttributeView>) -> Seq<SalsaAttrView>
    decreases attrs.len(),
{
    if attrs.len() == 0 {
        Seq::empty()
    } else if is_salsa_attr_path(attrs.last().path) {
        salsa_attrs(attrs.drop_last()).push(attrs.last().as_salsa())
    } else {
        salsa_attrs(attrs.drop_last())
    }
}

/// The attributes of a list as mathematical values.
pub open spec fn attrs_view(attrs: Seq<Attribute>) -> Seq<AttributeView> {
    Seq::new(attrs.len(), |i: int| attrs[i]@)
}

/// The engine's attributes of a list as mathematical values.
pub open spec fn salsa_view(attrs: Seq<SalsaAttr>) -> Seq<SalsaAttrView> {
    Seq::new(attrs.len(), |i: int| attrs[i]@)
}

/// Whether `a` and `b` hold the same characters.
pub fn same_text(a: &str, b: &str) -> (same: bool)
    ensures
        same == (a@ == b@),
{
    a.to_owned() == b.to_owned()
}

/// Whether `path` is not that of an attribute of the engine.
pub fn is_not_salsa_attr_path(path: &Vec<String>) -> (other: bool)
    ensures
        other == !is_salsa_attr_path(Seq::new(path@.len(), |i: int| path@[i]@)),
{
    if path.len() != 2 {
        return true;
    }
    !same_text(path[0].as_str(), "salsa")
}

impl SalsaAttr {
    /// Reads `attr` as an attribute of the engine; an attribute that is not
    /// one comes back as it is.
    pub fn try_from(attr: Attribute) -> (r: Result<SalsaAttr, Attribute>)
        ensures
            match r {
                Ok(salsa) => is_salsa_attr_path(attr@.path) && salsa@ == attr@.as_salsa(),
                Err(other) => !is_salsa_attr_path(attr@.path) && other == attr,
            },
    {
        if is_not_salsa_attr_path(&attr.path) {
            return Err(attr);
        }
        let name = attr.path[1].clone();
        let tts = attr.tokens;
        Ok(SalsaAttr { name, tts })
    }
}

impl Attribute {
    /// A copy of `self`.
    pub fn duplicate(&self) -> (copy: Attribute)
        ensures
            copy@ == self@,
    {
        let mut path: Vec<String> = Vec::new();
        let mut i: usize = 0;
        while i < self.path.len()
            invariant
                i <= self.path@.len(),
                path@.len() == i,
                forall|j: int| 0 <= j < i ==> path@[j]@ == self.path@[j]@,
            decreases self.path@.len() - i,
        {
            path.push(self.path[i].clone());
            i += 1;
        }
        let copy = Attribute { path, tokens: self.tokens.clone() };
        assert(copy@.path =~= self@.path);
        copy
    }
}

/// Parts the attributes of an item: those that are not the engine's stay
/// with the item, untouched; the engine's are read.  Each list keeps the
/// order of `attrs`.
pub fn filter_attrs(attrs: &Vec<Attribute>) -> (parted: (Vec<Attribute>, Vec<SalsaAttr>))
    ensures
        attrs_view(parted.0@) == other_attrs(attrs_view(attrs@)),
        salsa_view(parted.1@) == salsa_attrs(attrs_view(attrs@)),
{
    let mut other: Vec<Attribute> = Vec::new();
    let mut salsa: Vec<SalsaAttr> = Vec::new();
    let mut i: usize = 0;
    let ghost all = attrs_view(attrs@);
    assert(all.take(0) =~= Seq::<AttributeView>::empty());
    assert(attrs_view(other@) =~= Seq::<AttributeView>::empty());
    assert(salsa_view(salsa@) =~= Seq::<SalsaAttrView>::empty());
    while i < attrs.len()
        invariant
            i <= attrs@.len(),
            all == attrs_view(attrs@),
            attrs_view(other@) == other_attrs(all.take(i as int)),
            salsa_view(salsa@) == salsa_attrs(all.take(i as int)),
        decreases attrs@.len() - i,
    {
        let ghost seen = all.take(i as int);
        let ghost next = all.take(i + 1);
        let ghost other_before = other@;
        let ghost salsa_before = salsa@;
        proof {
            assert(next.drop_last() =~= seen);
            assert(next.last() == attrs@[i as int]@);
        }
        match SalsaAttr::try_from(attrs[i].duplicate()) {
            Ok(it) => {
                salsa.push(it);
                assert(salsa_view(salsa@) =~= salsa_view(salsa_before).push(it@));
            },
            Err(it) => {
                other.push(it);
                assert(attrs_view(other@) =~= attrs_view(other_before).push(it@));
            },
        }
        i += 1;
    }
    assert(all.take(attrs@.len() as int) =~= all);
    (other, salsa)
}

/// Why the attributes of a query cannot be honoured.
#[derive(Debug)]
pub enum ConfigError {
    /// An attribute of the engine with a name it does not know.
    UnknownAttribute { name: String },
    /// A bound on the memoized values that is no number.
    BadCapacity { text: String },
    /// More than one attribute that says how the query is stored.
    MultipleStorages,
    /// A function to invoke was named for an input, which is never computed.
    InvokeOnInput,
    /// More queries with storage than can be numbered.
    TooManyQueries,
}

/// A [`ConfigError`] as a mathematical value.
pub enum ErrorView {
    UnknownAttribute { name: Seq<char> },
    BadCapacity { text: Seq<char> },
    MultipleStorages,
    InvokeOnInput,
    TooManyQueries,
}

impl View for ConfigError {
    type V = ErrorView;

    open spec fn view(&self) -> ErrorView {
        match self {
            ConfigError::UnknownAttribute { name } => ErrorView::UnknownAttribute { name: name@ },
            ConfigError::BadCapacity { text } => ErrorView::BadCapacity { text: text@ },
            ConfigError::MultipleStorages => ErrorView::MultipleStorages,
            ConfigError::InvokeOnInput => ErrorView::InvokeOnInput,
            ConfigError::TooManyQueries => ErrorView::TooManyQueries,
        }
    }
}

/// What the attributes of a query say.
#[derive(Debug)]
pub struct QueryOptions {
    /// How the query is stored.
    pub storage: QueryStorage,
    /// The function that recovers from a cycle, if one was named.
    pub cycle: Option<String>,
    /// The function that computes the query, if one was named.
    pub invoke: Option<String>,
    /// The name of the type that stands for the query, if one was given.
    pub query_type: Option<String>,
    /// How many memoized values the query keeps at most, if a bound was
    /// given; 0 for any number.
    pub lru: Option<u32>,
    /// How many attributes said how the query is stored.
    pub num_storages: usize,
}

/// [`QueryOptions`] as a mathematical value.
pub struct OptionsView {
    pub storage: StorageView,
    pub cycle: Option<Seq<char>>,
    pub invoke: Option<Seq<char>>,
    pub query_type: Option<Seq<char>>,
    pub lru: Option<nat>,
    pub num_storages: nat,
}

/// The characters of an optional text.
pub open spec fn text_view(text: Option<String>) -> Option<Seq<char>> {
    match text {
        Some(t) => Some(t@),
        None => None,
    }
}

impl View for QueryOptions {
    type V = OptionsView;

    open spec fn view(&self) -> OptionsView {
        OptionsView {
            storage: self.storage@,
            cycle: text_view(self.cycle),
            invoke: text_view(self.invoke),
            query_type: text_view(self.query_type),
            lru: match self.lru {
                Some(n) => Some(n as nat),
                None => None,
            },
            num_storages: self.num_storages as nat,
        }
    }
}

impl OptionsView {
    /// What a query without attributes gets: memoized, computed by the
    /// function of its own name, without recovery.
    pub open spec fn initial() -> OptionsView {
        OptionsView {
            storage: StorageView::Memoized,
            cycle: None,
            invoke: None,
            query_type: None,
            lru: None,
            num_storages: 0,
        }
    }

    /// The options with the storage `storage` named once more.
    pub open spec fn with_storage(self, storage: StorageView) -> OptionsView {
        OptionsView { storage, num_storages: self.num_storages + 1, ..self }
    }

    /// The options after the attribute `attr`.  An attribute with a name
    /// the engine does not know is refused, and so is a bound on the
    /// memoized values that is no number.
    pub open spec fn apply(self, attr: SalsaAttrView) -> Result<OptionsView, ErrorView> {
        if attr.name == "memoized"@ {
            Ok(self.with_storage(StorageView::Memoized))
        } else if attr.name == "dependencies"@ {
            Ok(self.with_storage(StorageView::Dependencies))
        } else if attr.name == "input"@ {
            Ok(self.with_storage(StorageView::Input))
        } else if attr.name == "interned"@ {
            Ok(self.with_storage(StorageView::Interned))
        } else if attr.name == "cycle"@ {
            Ok(OptionsView { cycle: Some(attr.tts), ..self })
        } else if attr.name == "invoke"@ {
            Ok(OptionsView { invoke: Some(attr.tts), ..self })
        } else if attr.name == "query_type"@ {
            Ok(OptionsView { query_type: Some(attr.tts), ..self })
        } else if attr.name == "transparent"@ {
            Ok(self.with_storage(StorageView::Transparent))
        } else if attr.name == "lru"@ {
            match capacity_of(attr.tts) {
                Some(n) => Ok(OptionsView { lru: Some(n), ..self }),
                None => Err(ErrorView::BadCapacity { text: attr.tts }),
            }
        } else {
            Err(ErrorView::UnknownAttribute { name: attr.name })
        }
    }

    /// The options after the attributes `attrs`, in their order, or why the
    /// first attribute that is refused is refused.
    pub open spec fn apply_all(self, attrs: Seq<SalsaAttrView>) -> Result<OptionsView, ErrorView>
        decreases attrs.len(),
    {
        if attrs.len() == 0 {
            Ok(self)
        } else {
            match self.apply_all(attrs.drop_last()) {
                Ok(options) => options.apply(attrs.last()),
                Err(error) => Err(error),
            }
        }
    }

    /// What the attributes `attrs` of a query come to.  The first attribute
    /// that is refused decides; attributes that name more than one storage
    /// are refused; a function to invoke is refused for an input.
    pub open spec fn resolve(attrs: Seq<SalsaAttrView>) -> Result<OptionsView, ErrorView> {
        match OptionsView::initial().apply_all(attrs) {
            Err(error) => Err(error),
            Ok(options) => if options.has_multiple_storages() {
                Err(ErrorView::MultipleStorages)
            } else if options.invokes_input() {
                Err(ErrorView::InvokeOnInput)
            } else {
                Ok(options)
            },
        }
    }

    /// Whether the options name more than one storage.
    pub open spec fn has_multiple_storages(self) -> bool {
        self.num_storages > 1
    }

    /// Whether the options name a function to invoke for an input.
    pub open spec fn invokes_input(self) -> bool {
        self.invoke is Some && self.storage is Input
    }
}

impl QueryOptions {
    /// What a query without attributes gets.
    pub fn new() -> (options: QueryOptions)
        ensures
            options@ == OptionsView::initial(),
    {
        QueryOptions {
            storage: QueryStorage::Memoized,
            cycle: None,
            invoke: None,
            query_type: None,
            lru: None,
            num_storages: 0,
        }
    }

    /// Takes in one attribute of the engine.  Where the attribute is
    /// refused, the options stay as they are.
    pub fn apply(&mut self, attr: &SalsaAttr) -> (r: Result<(), ConfigError>)
        requires
            old(self).num_storages < usize::MAX,
        ensures
            match old(self)@.apply(attr@) {
                Ok(next) => r is Ok && final(self)@ == next,
                Err(error) => r is Err && r->Err_0@ == error && final(self)@ == old(self)@,
            },
    {
        let name = attr.name.as_str();
        if same_text(name, "memoized") {
            self.storage = QueryStorage::Memoized;
            self.num_storages = self.num_storages + 1;
        } else if same_text(name, "dependencies") {
            self.storage = QueryStorage::Dependencies;
            self.num_storages = self.num_storages + 1;
        } else if same_text(name, "input") {
            self.storage = QueryStorage::Input;
            self.num_storages = self.num_storages + 1;
        } else if same_text(name, "interned") {
            self.storage = QueryStorage::Interned;
            self.num_storages = self.num_storages + 1;
        } else if same_text(name, "cycle") {
            self.cycle = Some(attr.tts.clone());
        } else if same_text(name, "invoke") {
            self.invoke = Some(attr.tts.clone());
        } else if same_text(name, "query_type") {
            self.query_type = Some(attr.tts.clone());
        } else if same_text(name, "transparent") {
            self.storage = QueryStorage::Transparent;
            self.num_storages = self.num_storages + 1;
        } else if same_text(name, "lru") {
            match parse_capacity(attr.tts.as_str()) {
                Some(n) => {
                    self.lru = Some(n);
                },
                None => {
                    return Err(ConfigError::BadCapacity { text: attr.tts.clone() });
                },
            }
        } else {
            return Err(ConfigError::UnknownAttribute { name: attr.name.clone() });
        }
        Ok(())
    }

    /// What the attributes `attrs` of a query come to; see
    /// [`OptionsView::resolve`].
    pub fn resolve(attrs: &Vec<SalsaAttr>) -> (r: Result<QueryOptions, ConfigError>)
        ensures
            match OptionsView::resolve(salsa_view(attrs@)) {
                Err(error) => r is Err && r->Err_0@ == error,
                Ok(options) => r is Ok && r->Ok_0@ == options,
            },
    {
        let mut options = QueryOptions::new();
        let mut i: usize = 0;
        let ghost all = salsa_view(attrs@);
        assert(all.take(0) =~= Seq::<SalsaAttrView>::empty());
        while i < attrs.len()
            invariant
                i <= attrs@.len(),
                all == salsa_view(attrs@),
                OptionsView::initial().apply_all(all.take(i as int)) == Ok::<OptionsView, ErrorView>(options@),
                options.num_storages <= i,
            decreases attrs@.len() - i,
        {
            proof {
                assert(all.take(i + 1).drop_last() =~= all.take(i as int));
                assert(all.take(i + 1).last() == attrs@[i as int]@);
            }
            match options.apply(&attrs[i]) {
                Ok(()) => {},
                Err(e) => {
                    proof {
                        lemma_unknown_stays(OptionsView::initial(), all, (i + 1) as nat);
                        assert(all.take(all.len() as int) =~= all);
                    }
                    return Err(e);
                },
            }
            i += 1;
        }
        assert(all.take(attrs@.len() as int) =~= all);
        if options.num_storages > 1 {
            return Err(ConfigError::MultipleStorages);
        }
        if options.invoke.is_some() {
            if let QueryStorage::Input = options.storage {
                return Err(ConfigError::InvokeOnInput);
            }
        }
        Ok(options)
    }
}

/// Once an attribute was refused, the attributes after it change nothing.
pub proof fn lemma_unknown_stays(start: OptionsView, attrs: Seq<SalsaAttrView>, n: nat)
    requires
        n <= attrs.len(),
        start.apply_all(attrs.take(n as int)) is Err,
    ensures
        start.apply_all(attrs) == start.apply_all(attrs.take(n as int)),
    decreases attrs.len(),
{
    if n < attrs.len() {
        assert(attrs.drop_last().take(n as int) =~= attrs.take(n as int));
        lemma_unknown_stays(start, attrs.drop_last(), n);
    } else {
        assert(attrs.take(n as int) =~= attrs);
    }
}

/// The characters of each text of a list.
pub open spec fn texts_view(texts: Seq<String>) -> Seq<Seq<char>> {
    Seq::new(texts.len(), |i: int| texts[i]@)
}

/// A copy of `texts`.
pub fn copy_texts(texts: &Vec<String>) -> (copy: Vec<String>)
    ensures
        texts_view(copy@) == texts_view(texts@),
{
    let mut copy: Vec<String> = Vec::new();
    let mut i: usize = 0;
    while i < texts.len()
        invariant
            i <= texts@.len(),
            copy@.len() == i,
            forall|j: int| 0 <= j < i ==> copy@[j]@ == texts@[j]@,
        decreases texts@.len() - i,
    {
        copy.push(texts[i].clone());
        i += 1;
    }
    assert(texts_view(copy@) =~= texts_view(texts@));
    copy
}

/// A copy of `text`, if there is one.
pub fn copy_text(text: &Option<String>) -> (copy: Option<String>)
    ensures
        text_view(copy) == text_view(*text),
{
    match text {
        Some(t) => Some(t.clone()),
        None => None,
    }
}

/// The type of what a query returns.
#[derive(Debug)]
pub enum QueryValue {
    /// The type written in the declaration.
    Type(String),
    /// The tuple of these types.
    TupleOf(Vec<String>),
}

/// A [`QueryValue`] as a mathematical value.
pub enum ValueView {
    Type(Seq<char>),
    TupleOf(Seq<Seq<char>>),
}

impl View for QueryValue {
    type V = ValueView;

    open spec fn view(&self) -> ValueView {
        match self {
            QueryValue::Type(t) => ValueView::Type(t@),
            QueryValue::TupleOf(ts) => ValueView::TupleOf(texts_view(ts@)),
        }
    }
}

/// A method of a query group as declared: its name, its attributes, whether
/// it is `async`, the types of its keys, and the type it returns.
#[derive(Debug)]
pub struct QueryMethod {
    pub name: String,
    pub attrs: Vec<Attribute>,
    pub is_async: bool,
    pub keys: Vec<String>,
    pub value: String,
}

/// A query as the engine sets it up.
#[derive(Debug)]
pub struct Query {
    /// The name of the method that reads the query.
    pub fn_name: String,
    /// The name the query goes by.
    pub query_name: String,
    pub is_async: bool,
    /// The attributes of the method that are not the engine's.
    pub attrs: Vec<Attribute>,
    /// The name of the type that stands for the query.
    pub query_type: String,
    pub storage: QueryStorage,
    /// The types of the keys.
    pub keys: Vec<String>,
    pub value: QueryValue,
    /// The function that computes the query, if it is not the one of the
    /// query's own name.
    pub invoke: Option<String>,
    /// The function that recovers from a cycle, if there is one.
    pub cycle: Option<String>,
    /// How many memoized values the query keeps at most, if it is bounded;
    /// 0 for any number.
    pub lru: Option<u32>,
}

/// A [`Query`] as a mathematical value.
pub struct QueryView {
    pub fn_name: Seq<char>,
    pub query_name: Seq<char>,
    pub is_async: bool,
    pub attrs: Seq<AttributeView>,
    pub query_type: Seq<char>,
    pub storage: StorageView,
    pub keys: Seq<Seq<char>>,
    pub value: ValueView,
    pub invoke: Option<Seq<char>>,
    pub cycle: Option<Seq<char>>,
    pub lru: Option<nat>,
}

impl View for Query {
    type V = QueryView;

    open spec fn view(&self) -> QueryView {
        QueryView {
            fn_name: self.fn_name@,
            query_name: self.query_name@,
            is_async: self.is_async,
            attrs: attrs_view(self.attrs@),
            query_type: self.query_type@,
            storage: self.storage@,
            keys: texts_view(self.keys@),
            value: self.value@,
            invoke: text_view(self.invoke),
            cycle: text_view(self.cycle),
            lru: match self.lru {
                Some(n) => Some(n as nat),
                None => None,
            },
        }
    }
}

/// The query that the method `method` declares, given what its attributes
/// come to.  The type that stands for it is the one the attributes give, or
/// else the method's name in camel case followed by `Query`.
pub open spec fn declared_query(method: QueryMethod, options: OptionsView) -> QueryView {
    QueryView {
        fn_name: method.name@,
        query_name: method.name@,
        is_async: method.is_async,
        attrs: other_attrs(attrs_view(method.attrs@)),
        query_type: match options.query_type {
            Some(name) => name,
            None => camel_case(method.name@) + "Query"@,
        },
        storage: options.storage,
        keys: texts_view(method.keys@),
        value: ValueView::Type(method.value@),
        invoke: options.invoke,
        cycle: options.cycle,
        lru: options.lru,
    }
}

/// The query that looks up what the interned query `interned`, declared by
/// `method`, has interned: from the number to the tuple of the keys.
pub open spec fn lookup_query(method: QueryMethod, interned: QueryView) -> QueryView {
    QueryView {
        fn_name: "lookup_"@ + method.name@,
        query_name: "lookup_"@ + method.name@,
        is_async: method.is_async,
        attrs: Seq::empty(),
        query_type: camel_case(method.name@) + "LookupQuery"@,
        storage: StorageView::InternedLookup { intern_query_type: interned.query_type },
        keys: seq![method.value@],
        value: ValueView::TupleOf(texts_view(method.keys@)),
        invoke: None,
        cycle: interned.cycle,
        lru: None,
    }
}

impl Query {
    /// The name of the function that computes the query: the one named by
    /// the attributes, or else the one of the query's own name.
    pub fn invoke_tt(&self) -> (name: String)
        ensures
            name@ == match text_view(self.invoke) {
                Some(invoke) => invoke,
                None => self.fn_name@,
            },
    {
        match &self.invoke {
            Some(i) => i.clone(),
            None => self.fn_name.clone(),
        }
    }
}

/// Sets up the queries that the method `method` declares: the query itself
/// and, for an interned query, the query that looks up what it interned.
/// The attributes of the method are refused as [`OptionsView::resolve`]
/// says.
pub fn plan_method(method: &QueryMethod) -> (r: Result<(Query, Option<Query>), ConfigError>)
    ensures
        match OptionsView::resolve(salsa_attrs(attrs_view(method.attrs@))) {
            Err(error) => r is Err && r->Err_0@ == error,
            Ok(options) => {
                &&& r matches Ok(planned)
                &&& planned.0@ == declared_query(*method, options)
                &&& if options.storage is Interned {
                    planned.1 matches Some(lookup) && lookup@ == lookup_query(*method, planned.0@)
                } else {
                    planned.1 is None
                }
            },
        },
{
    let (attrs, salsa) = filter_attrs(&method.attrs);
    let options = match QueryOptions::resolve(&salsa) {
        Ok(options) => options,
        Err(e) => {
            return Err(e);
        },
    };
    let ghost view = options@;
    let QueryOptions { storage, cycle, invoke, query_type, lru, num_storages } = options;
    let query_type = match query_type {
        Some(name) => name,
        None => query_type_name(method.name.as_str()),
    };
    let lookup = if let QueryStorage::Interned = storage {
        let mut lookup_keys: Vec<String> = Vec::new();
        lookup_keys.push(method.value.clone());
        let lookup = Query {
            query_type: lookup_query_type_name(method.name.as_str()),
            query_name: lookup_fn_name(method.name.as_str()),
            is_async: method.is_async,
            fn_name: lookup_fn_name(method.name.as_str()),
            attrs: Vec::new(),
            storage: QueryStorage::InternedLookup { intern_query_type: query_type.clone() },
            keys: lookup_keys,
            value: QueryValue::TupleOf(copy_texts(&method.keys)),
            invoke: None,
            cycle: copy_text(&cycle),
            lru: None,
        };
        proof {
            assert(lookup@.keys =~= seq![method.value@]);
            assert(lookup@.attrs =~= Seq::<AttributeView>::empty());
        }
        Some(lookup)
    } else {
        None
    };
    let query = Query {
        query_type,
        query_name: method.name.clone(),
        is_async: method.is_async,
        fn_name: method.name.clone(),
        attrs,
        storage,
        keys: copy_texts(&method.keys),
        value: QueryValue::Type(method.value.clone()),
        invoke,
        cycle,
        lru,
    };
    Ok((query, lookup))
}

/// How many of the first `n` storages have a table of slots.
pub open spec fn stored_before(storages: Seq<QueryStorage>, n: int) -> nat
    decreases n,
{
    if n <= 0 {
        0
    } else {
        stored_before(storages, n - 1) + if storages[n - 1]@ is Transparent {
            0nat
        } else {
            1nat
        }
    }
}

/// Numbers the queries of a group: each query that has a table of slots gets
/// the count of such queries before it, and a transparent query gets no
/// number.  Refused if there are more queries with tables than 16 bits can
/// number.
pub fn query_indices(storages: &Vec<QueryStorage>) -> (r: Result<Vec<Option<u16>>, ConfigError>)
    ensures
        match r {
            Ok(indices) => {
                &&& stored_before(storages@, storages@.len() as int) <= 0x1_0000
                &&& indices@.len() == storages@.len()
                &&& forall|i: int| 0 <= i < storages@.len() ==> #[trigger] indices@[i] == if storages@[i]@ is Transparent {
                    None
                } else {
                    Some(stored_before(storages@, i) as u16)
                }
            },
            Err(e) => e@ is TooManyQueries && stored_before(storages@, storages@.len() as int) > 0x1_0000,
        },
{
    let mut indices: Vec<Option<u16>> = Vec::new();
    let mut next: u32 = 0;
    let mut i: usize = 0;
    while i < storages.len()
        invariant
            i <= storages@.len(),
            indices@.len() == i,
            next == stored_before(storages@, i as int),
            next <= 0x1_0000,
            forall|j: int| 0 <= j < i ==> #[trigger] indices@[j] == if storages@[j]@ is Transparent {
                None
            } else {
                Some(stored_before(storages@, j) as u16)
            },
        decreases storages@.len() - i,
    {
        if storages[i].has_storage() {
            if next >= 0x1_0000 {
                proof {
                    lemma_stored_before_grows(storages@, i + 1, storages@.len() as int);
                }
                return Err(ConfigError::TooManyQueries);
            }
            indices.push(Some(next as u16));
            next = next + 1;
        } else {
            indices.push(None);
        }
        i += 1;
    }
    Ok(indices)
}

/// The count of storages with tables grows with the number of storages
/// counted.
pub proof fn lemma_stored_before_grows(storages: Seq<QueryStorage>, m: int, n: int)
    requires
        m <= n,
    ensures
        stored_before(storages, m) <= stored_before(storages, n),
    decreases n - m,
{
    if m < n {
        lemma_stored_before_grows(storages, m, n - 1);
    }
}

} // verus!
