//! Relationship slots: the tri-state or bi-state holders that record, for one
//! association on a node, whether its children have been loaded yet.

use vstd::prelude::*;

verus! {

/// Why reading a relationship slot failed: either the relationship was never
/// requested ([`Error::NotLoaded`]), or it was requested and the store held no
/// matching value ([`Error::LoadFailed`]).
#[derive(Debug, Clone, Copy, PartialEq, Eq, Structural)]
pub enum Error {
    NotLoaded,
    LoadFailed,
}

/// A required to-one relationship slot.
#[derive(Debug, Clone)]
pub enum DbEdge<T> {
    /// The associated value was loaded.
    Loaded(T),
    /// The associated value has not yet been loaded.
    NotLoaded,
    /// The associated value should have been loaded, but no match was found.
    LoadFailed,
}

impl<T> DbEdge<T> {
    /// Borrow the loaded value, or report in what way it is unavailable.
    pub fn try_unwrap(&self) -> (r: Result<&T, Error>)
        ensures
            match self {
                DbEdge::Loaded(v) => r == Ok::<&T, Error>(v),
                DbEdge::NotLoaded => r == Err::<&T, Error>(Error::NotLoaded),
                DbEdge::LoadFailed => r == Err::<&T, Error>(Error::LoadFailed),
            },
    {
        match self {
            DbEdge::Loaded(inner) => Ok(inner),
            DbEdge::NotLoaded => Err(Error::NotLoaded),
            DbEdge::LoadFailed => Err(Error::LoadFailed),
        }
    }

    /// Record the outcome of a load: a found value becomes `Loaded`, an
    /// absent one becomes `LoadFailed`. The slot never stays `NotLoaded`.
    pub fn loaded_or_failed(&mut self, inner: Option<T>)
        ensures
            *final(self) == (match inner {
                Some(v) => DbEdge::Loaded(v),
                None => DbEdge::<T>::LoadFailed,
            }),
    {
        match inner {
            Some(v) => {
                *self = DbEdge::Loaded(v);
            },
            None => {
                *self = DbEdge::LoadFailed;
            },
        }
    }
}

/// A fresh slot has not been loaded yet.
impl<T> Default for DbEdge<T> {
    fn default() -> (r: Self)
        ensures
            r is NotLoaded,
    {
        DbEdge::NotLoaded
    }
}

/// An optional to-one relationship slot: an absent child is valid data, so
/// there is no failure state.
#[derive(Debug, Clone)]
pub enum OptionDbEdge<T> {
    /// The associated value was loaded (possibly found to be absent).
    Loaded(Option<T>),
    /// The associated value has not yet been loaded.
    NotLoaded,
}

impl<T> OptionDbEdge<T> {
    /// Borrow the loaded value, or report that it was never loaded.
    pub fn try_unwrap(&self) -> (r: Result<&Option<T>, Error>)
        ensures
            match self {
                OptionDbEdge::Loaded(v) => r == Ok::<&Option<T>, Error>(v),
                OptionDbEdge::NotLoaded => r == Err::<&Option<T>, Error>(Error::NotLoaded),
            },
    {
        match self {
            OptionDbEdge::Loaded(inner) => Ok(inner),
            OptionDbEdge::NotLoaded => Err(Error::NotLoaded),
        }
    }

    /// Record the outcome of a load. An absent child is stored as
    /// `Loaded(None)`, never as a failure.
    pub fn loaded_or_failed(&mut self, inner: Option<T>)
        ensures
            *final(self) == OptionDbEdge::Loaded(inner),
    {
        *self = OptionDbEdge::Loaded(inner);
    }
}

/// A fresh slot has not been loaded yet.
impl<T> Default for OptionDbEdge<T> {
    fn default() -> (r: Self)
        ensures
            r is NotLoaded,
    {
        OptionDbEdge::NotLoaded
    }
}

/// A to-many relationship slot, filled by appending one found child at a
/// time; absent children are silently skipped.
#[derive(Debug, Clone)]
pub enum VecDbEdge<T> {
    /// The associated values were loaded.
    Loaded(Vec<T>),
    /// The associated values have not yet been loaded.
    NotLoaded,
}

/// The values a to-many slot currently holds: none before loading.
pub open spec fn vec_edge_values<T>(e: VecDbEdge<T>) -> Seq<T> {
    match e {
        VecDbEdge::Loaded(models) => models@,
        VecDbEdge::NotLoaded => Seq::empty(),
    }
}

impl<T> VecDbEdge<T> {
    /// Borrow the loaded values, or report that they were never loaded.
    pub fn try_unwrap(&self) -> (r: Result<&Vec<T>, Error>)
        ensures
            match self {
                VecDbEdge::Loaded(v) => r == Ok::<&Vec<T>, Error>(v),
                VecDbEdge::NotLoaded => r == Err::<&Vec<T>, Error>(Error::NotLoaded),
            },
    {
        match self {
            VecDbEdge::Loaded(inner) => Ok(inner),
            VecDbEdge::NotLoaded => Err(Error::NotLoaded),
        }
    }

    /// Record the outcome of one per-child lookup: a found value is appended,
    /// an absent one is dropped, and either way the slot counts as loaded.
    pub fn loaded_or_failed(&mut self, inner: Option<T>)
        ensures
            *final(self) is Loaded,
            vec_edge_values(*final(self)) =~= (match inner {
                Some(v) => vec_edge_values(*old(self)).push(v),
                None => vec_edge_values(*old(self)),
            }),
    {
        match self {
            VecDbEdge::Loaded(models) => {
                if let Some(v) = inner {
                    models.push(v);
                }
            },
            VecDbEdge::NotLoaded => {
                let loaded = match inner {
                    Some(v) => VecDbEdge::Loaded(vec![v]),
                    None => VecDbEdge::Loaded(Vec::new()),
                };
                *self = loaded;
            },
        }
    }
}

/// A fresh slot has not been loaded yet.
impl<T> Default for VecDbEdge<T> {
    fn default() -> (r: Self)
        ensures
            r is NotLoaded,
    {
        VecDbEdge::NotLoaded
    }
}

} // verus!
