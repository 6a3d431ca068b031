//! Registries of message handlers.
//!
//! A registry maps the name of a message type to the handler for it; a name
//! can be registered only once.  Beside these, a registry keeps category
//! handlers, each guarded by a regular expression over message type names.
use crate::text_map::TextMap;
use vstd::prelude::*;

verus! {

#[verifier::external_type_specification]
#[verifier::external_body]
pub struct ExRegex(regex::Regex);

#[verifier::external_type_specification]
#[verifier::external_body]
pub struct ExRegexError(regex::Error);

/// Whether the `regex` crate accepts the text as a regular expression (its
/// syntax, and the size of what it compiles to under the default limits).
pub uninterp spec fn is_valid_pattern(pattern: Seq<char>) -> bool;

/// Compiles a regular expression (`regex::Regex::new`).  It succeeds exactly
/// when the pattern is valid.
#[verifier::external_body]
fn compile_pattern(pattern: &str) -> (r: Result<regex::Regex, regex::Error>)
    ensures
        r is Ok <==> is_valid_pattern(pattern@),
{
    regex::Regex::new(pattern)
}

/// Why a handler could not be registered.
#[derive(Debug)]
pub enum RegistryError {
    /// A handler is already registered under the name.
    AlreadyRegistered(String),
    /// The category pattern is not a valid regular expression.
    InvalidPattern(String),
}

/// Handlers by message type name, and category handlers.
pub struct TheHandlerRegistry<H> {
    handlers: TextMap<H>,
    category_handlers: Vec<(regex::Regex, H)>,
}

impl<H> TheHandlerRegistry<H> {
    pub closed spec fn wf(self) -> bool {
        self.handlers.wf()
    }

    /// The handlers, by name.
    pub closed spec fn handles(self) -> Map<Seq<char>, H> {
        self.handlers@
    }

    /// The registered names, in order of registration.
    pub closed spec fn names(self) -> Seq<Seq<char>> {
        self.handlers.key_seq()
    }

    /// The category handlers, in order of registration.
    pub closed spec fn category_handles(self) -> Seq<H> {
        Seq::new(self.category_handlers@.len(), |i: int| self.category_handlers@[i].1)
    }

    /// Registers the handler under the name, unless a handler is registered
    /// under it already, in which case nothing changes.
    pub fn insert_handle(&mut self, name: &str, handle: H) -> (r: Result<(), RegistryError>)
        requires
            old(self).wf(),
        ensures
            final(self).wf(),
            final(self).category_handles() == old(self).category_handles(),
            old(self).handles().contains_key(name@) ==> {
                &&& r matches Err(RegistryError::AlreadyRegistered(n)) && n@ == name@
                &&& final(self).handles() == old(self).handles()
                &&& final(self).names() == old(self).names()
            },
            !old(self).handles().contains_key(name@) ==> {
                &&& r is Ok
                &&& final(self).handles() == old(self).handles().insert(name@, handle)
                &&& final(self).names() == old(self).names().push(name@)
            },
    {
        if self.handlers.contains_key(name) {
            return Err(RegistryError::AlreadyRegistered(name.to_owned()));
        }
        self.handlers.insert(name.to_owned(), handle);
        Ok(())
    }

    /// Adds a category handler for the message types that match the pattern.
    /// Fails, changing nothing, when the pattern is not a valid regular
    /// expression (checked first) or when a handler is registered under the
    /// handler's name.
    pub fn append_category_handle(&mut self, pattern: &str, name: &str, handle: H) -> (r: Result<
        (),
        RegistryError,
    >)
        requires
            old(self).wf(),
        ensures
            final(self).wf(),
            final(self).handles() == old(self).handles(),
            final(self).names() == old(self).names(),
            !is_valid_pattern(pattern@) ==> {
                &&& r matches Err(RegistryError::InvalidPattern(p)) && p@ == pattern@
                &&& final(self).category_handles() == old(self).category_handles()
            },
            is_valid_pattern(pattern@) && old(self).handles().contains_key(name@) ==> {
                &&& r matches Err(RegistryError::AlreadyRegistered(n)) && n@ == name@
                &&& final(self).category_handles() == old(self).category_handles()
            },
            is_valid_pattern(pattern@) && !old(self).handles().contains_key(name@) ==> {
                &&& r is Ok
                &&& final(self).category_handles() == old(self).category_handles().push(handle)
            },
    {
        let regex = match compile_pattern(pattern) {
            Ok(regex) => regex,
            Err(_) => {
                return Err(RegistryError::InvalidPattern(pattern.to_owned()));
            },
        };
        if self.handlers.contains_key(name) {
            return Err(RegistryError::AlreadyRegistered(name.to_owned()));
        }
        self.category_handlers.push((regex, handle));
        assert(self.category_handles() =~= old(self).category_handles().push(handle));
        Ok(())
    }

    /// The handler registered under the name, if any.
    pub fn get(&self, name: &str) -> (r: Option<&H>)
        requires
            self.wf(),
        ensures
            match r {
                Some(h) => self.handles().contains_key(name@) && *h == self.handles()[name@],
                None => !self.handles().contains_key(name@),
            },
    {
        self.handlers.get(name)
    }

    /// The registered names, in order of registration.
    pub fn handler_names(&self) -> (r: Vec<String>)
        requires
            self.wf(),
        ensures
            r@.len() == self.names().len(),
            forall|i: int| 0 <= i < r@.len() ==> #[trigger] r@[i]@ == self.names()[i],
    {
        self.handlers.keys()
    }
}

/// A registry with no handlers.
pub fn empty_handler_registry<H>() -> (r: TheHandlerRegistry<H>)
    ensures
        r.wf(),
        r.handles() == Map::<Seq<char>, H>::empty(),
        r.names() == Seq::<Seq<char>>::empty(),
        r.category_handles() == Seq::<H>::empty(),
{
    let r = TheHandlerRegistry { handlers: TextMap::new(), category_handlers: Vec::new() };
    assert(r.category_handles() =~= Seq::<H>::empty());
    r
}

/// How the result of a handler is turned into what the registry's users expect:
/// the type name under which it is reported, and the conversion.
pub struct ResponseWrapper<C> {
    pub type_label: String,
    pub convert: C,
}

/// A handler, ready to be registered: the name of the message type it
/// handles, how to decode that message, the handler itself, and how its
/// result is passed on (if at all).
pub struct Subscription<D, F, C> {
    pub name: String,
    pub deserializer: D,
    pub handler: F,
    pub wrapper: Option<ResponseWrapper<C>>,
}

/// Builds a `Subscription` step by step.
pub struct HandleBuilder<D, F, C> {
    name: String,
    deserializer: D,
    handler: F,
    wrapper: Option<ResponseWrapper<C>>,
}

impl<D, F, C> HandleBuilder<D, F, C> {
    pub closed spec fn spec_name(self) -> Seq<char> {
        self.name@
    }

    pub closed spec fn spec_deserializer(self) -> D {
        self.deserializer
    }

    pub closed spec fn spec_handler(self) -> F {
        self.handler
    }

    /// The type name and conversion of the result, if the result is passed on.
    pub closed spec fn spec_wrapper(self) -> Option<(Seq<char>, C)> {
        match self.wrapper {
            Some(w) => Some((w.type_label@, w.convert)),
            None => None,
        }
    }

    /// A handler for the named message type whose result is dropped.
    pub fn new(name: &str, deserializer: D, handler: F) -> (r: HandleBuilder<D, F, C>)
        ensures
            r.spec_name() == name@,
            r.spec_deserializer() == deserializer,
            r.spec_handler() == handler,
            r.spec_wrapper() is None,
    {
        HandleBuilder { name: name.to_owned(), deserializer, handler, wrapper: None }
    }

    /// Drops the handler's result.
    pub fn ignore_output(self) -> (r: HandleBuilder<D, F, C>)
        ensures
            r.spec_name() == self.spec_name(),
            r.spec_deserializer() == self.spec_deserializer(),
            r.spec_handler() == self.spec_handler(),
            r.spec_wrapper() is None,
    {
        HandleBuilder { wrapper: None, ..self }
    }

    /// Passes the handler's result on through the mapper, under the type name.
    pub fn with_mapped_output(self, type_label: &str, mapper: C) -> (r: HandleBuilder<D, F, C>)
        ensures
            r.spec_name() == self.spec_name(),
            r.spec_deserializer() == self.spec_deserializer(),
            r.spec_handler() == self.spec_handler(),
            r.spec_wrapper() == Some((type_label@, mapper)),
    {
        HandleBuilder {
            wrapper: Some(ResponseWrapper { type_label: type_label.to_owned(), convert: mapper }),
            ..self
        }
    }

    /// The finished handler.
    pub fn build(self) -> (r: Subscription<D, F, C>)
        ensures
            r.name@ == self.spec_name(),
            r.deserializer == self.spec_deserializer(),
            r.handler == self.spec_handler(),
            match r.wrapper {
                Some(w) => self.spec_wrapper() == Some((w.type_label@, w.convert)),
                None => self.spec_wrapper() is None,
            },
    {
        Subscription {
            name: self.name,
            deserializer: self.deserializer,
            handler: self.handler,
            wrapper: self.wrapper,
        }
    }
}

} // verus!
