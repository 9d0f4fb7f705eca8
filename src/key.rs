use crate::error::Error;
use std::borrow::Cow;
use vstd::prelude::*;

verus! {

/// The text of one field name about to be emitted.
#[derive(Debug)]
pub enum Key<'k> {
    /// A program constant, used without copying.
    Static(&'static str),
    /// Text borrowed from the value, or text that had to be computed.
    Dynamic(Cow<'k, str>),
}

/// How a text reaches a sink: as a program constant, borrowed, or as text
/// that had to be materialised.
#[derive(PartialEq, Eq, Structural, Clone, Copy, Debug)]
pub enum TextKind {
    Constant,
    Borrowed,
    Owned,
}

impl<'k> View for Key<'k> {
    type V = Seq<char>;

    open spec fn view(&self) -> Seq<char> {
        match self {
            Key::Static(k) => k@,
            Key::Dynamic(k) => k@,
        }
    }
}

impl<'k> Key<'k> {
    /// How the key's text was produced.
    pub open spec fn kind(&self) -> TextKind {
        match self {
            Key::Static(_) => TextKind::Constant,
            Key::Dynamic(Cow::Borrowed(_)) => TextKind::Borrowed,
            Key::Dynamic(Cow::Owned(_)) => TextKind::Owned,
        }
    }

    /// The key's text.
    pub fn as_str(&self) -> (r: &str)
        ensures
            r@ == self@,
    {
        match self {
            Key::Static(k) => k,
            Key::Dynamic(Cow::Borrowed(k)) => k,
            Key::Dynamic(Cow::Owned(k)) => k.as_str(),
        }
    }

    /// The key in a form that outlives the value it came from: a constant
    /// stays borrowed, owned text is moved, and only borrowed text is
    /// copied.
    pub fn into_cow(self) -> (r: Cow<'static, str>)
        ensures
            r@ == self@,
            self is Static <==> r is Borrowed,
            self matches Key::Dynamic(Cow::Owned(s)) ==> r == Cow::<'static, str>::Owned(s),
    {
        match self {
            Key::Static(k) => Cow::Borrowed(k),
            Key::Dynamic(Cow::Borrowed(k)) => Cow::Owned(k.to_owned()),
            Key::Dynamic(Cow::Owned(k)) => Cow::Owned(k),
        }
    }
}

/// The sink that turns a resolved text into a [`Key`] and hands it to `end`.
pub struct KeySink<End> {
    pub end: End,
}

impl<End, T> KeySink<End> where End: for <'key> Fn(Key<'key>) -> Result<T, Error> {
    pub fn new(end: End) -> (r: Self)
        ensures
            r.end == end,
    {
        KeySink { end }
    }

    /// Accepts constant text.
    pub fn serialize_static_str(&mut self, value: &'static str) -> (r: Result<T, Error>)
        requires
            forall|k: Key| old(self).end.requires((k,)),
        ensures
            *final(self) == *old(self),
            old(self).end.ensures((Key::Static(value),), r),
    {
        (self.end)(Key::Static(value))
    }

    /// Accepts text borrowed from the value.
    pub fn serialize_str(&mut self, value: &str) -> (r: Result<T, Error>)
        requires
            forall|k: Key| old(self).end.requires((k,)),
        ensures
            *final(self) == *old(self),
            old(self).end.ensures((Key::Dynamic(Cow::Borrowed(value)),), r),
    {
        (self.end)(Key::Dynamic(Cow::Borrowed(value)))
    }

    /// Accepts text that had to be computed.
    pub fn serialize_string(&mut self, value: String) -> (r: Result<T, Error>)
        requires
            forall|k: Key| old(self).end.requires((k,)),
        ensures
            *final(self) == *old(self),
            old(self).end.ensures((Key::Dynamic(Cow::Owned(value)),), r),
    {
        (self.end)(Key::Dynamic(Cow::Owned(value)))
    }

    /// A key cannot be absent.
    pub fn serialize_none(&mut self) -> (r: Result<T, Error>)
        ensures
            *final(self) == *old(self),
            r is Err && r->Err_0 is Custom && r->Err_0->Custom_0@ == "unsupported key"@,
    {
        Err(self.unsupported())
    }

    /// A key cannot be an optional value, even a present one.
    pub fn serialize_some(&mut self, _value: &crate::data::Value) -> (r: Result<T, Error>)
        ensures
            *final(self) == *old(self),
            r is Err && r->Err_0 is Custom && r->Err_0->Custom_0@ == "unsupported key"@,
    {
        Err(self.unsupported())
    }

    /// The error for a shape that cannot be a key.
    pub fn unsupported(&self) -> (e: Error)
        ensures
            e is Custom && e->Custom_0@ == "unsupported key"@,
    {
        Error::Custom("unsupported key".to_owned())
    }
}

} // verus!
