//! Styles: sets of optional visual and layout settings, merged so that
//! later settings win, and a sheet of named styles.

use core::marker::PhantomData;
use vstd::prelude::*;

pub mod layout;
pub mod sheet;
pub mod words;

pub use self::sheet::StyleSheet;

verus! {

/// How a style holds a field of type `T`.
pub trait StyleField<T> {
    type Type;
}

/// Every field holds a value.
#[derive(Debug, Clone, Default)]
pub struct Baked;

/// A field may be unset.
#[derive(Debug, Clone, Default)]
pub struct Mergeable;

/// A field may be unset, or borrows a value of another style.
#[derive(Debug, Clone, Copy)]
pub struct Ref<'a>(PhantomData<&'a ()>);

impl<'a> Default for Ref<'a> {
    fn default() -> Self {
        Ref(PhantomData)
    }
}

impl<T> StyleField<T> for Baked {
    type Type = T;
}

impl<T> StyleField<T> for Mergeable {
    type Type = Option<T>;
}

impl<'a, T: 'a> StyleField<T> for Ref<'a> {
    type Type = Option<&'a T>;
}

/// Visual and layout settings: a color, a texture position, a size and an
/// offset calculator, and a text alignment, held as `F` says.
pub struct Style<C, X, S, O, A, F = Mergeable> where
    F: StyleField<C> + StyleField<X> + StyleField<S> + StyleField<O> + StyleField<A>,
 {
    /// Foreground colors
    ///
    /// Like text color or fill color
    pub color: <F as StyleField<C>>::Type,
    /// Texture position
    ///
    /// Used by fill
    pub texture: <F as StyleField<X>>::Type,
    /// Size calculator of the widget
    pub size: <F as StyleField<S>>::Type,
    /// Offset calculator of the widget
    pub offset: <F as StyleField<O>>::Type,
    /// text alignment
    pub text_align: <F as StyleField<A>>::Type,
}

/// `b` where it is set, else `a`.
pub open spec fn prefer<T>(a: Option<T>, b: Option<T>) -> Option<T> {
    match b {
        Some(_) => b,
        None => a,
    }
}

/// Merging styles: settings of the later style win.
pub trait MergeStyles: Sized {
    spec fn merged(self, other: Self) -> Self;

    /// overwrites values of self with
    /// values from other if they are `Some(..)`
    fn merge(self, other: Self) -> (r: Self)
        ensures
            r == self.merged(other),
    ;
}

impl<T> MergeStyles for Option<T> {
    open spec fn merged(self, other: Self) -> Self {
        prefer(self, other)
    }

    fn merge(self, other: Self) -> (r: Self) {
        let r = match other {
            Some(_) => other,
            None => self,
        };
        assert(r == prefer(self, other));
        assert(r == <Option<T> as MergeStyles>::merged(self, other));
        r
    }
}

/// A style whose fields may be unset.
pub type MergeableStyle<C, X, S, O, A> = Style<C, X, S, O, A, Mergeable>;

/// A style whose fields borrow from other styles.
pub type StyleRef<'a, C, X, S, O, A> = Style<C, X, S, O, A, Ref<'a>>;

/// A style whose fields all hold values.
pub type BakedStyle<C, X, S, O, A> = Style<C, X, S, O, A, Baked>;

impl<C, X, S, O, A> MergeStyles for Style<C, X, S, O, A, Mergeable> {
    open spec fn merged(self, other: Self) -> Self {
        Style {
            color: prefer(self.color, other.color),
            texture: prefer(self.texture, other.texture),
            size: prefer(self.size, other.size),
            offset: prefer(self.offset, other.offset),
            text_align: prefer(self.text_align, other.text_align),
        }
    }

    fn merge(self, other: Self) -> (r: Self) {
        Style {
            color: self.color.merge(other.color),
            texture: self.texture.merge(other.texture),
            size: self.size.merge(other.size),
            offset: self.offset.merge(other.offset),
            text_align: self.text_align.merge(other.text_align),
        }
    }
}

impl<'a, C: 'a, X: 'a, S: 'a, O: 'a, A: 'a> MergeStyles for Style<C, X, S, O, A, Ref<'a>> {
    open spec fn merged(self, other: Self) -> Self {
        Style {
            color: prefer(self.color, other.color),
            texture: prefer(self.texture, other.texture),
            size: prefer(self.size, other.size),
            offset: prefer(self.offset, other.offset),
            text_align: prefer(self.text_align, other.text_align),
        }
    }

    fn merge(self, other: Self) -> (r: Self) {
        Style {
            color: self.color.merge(other.color),
            texture: self.texture.merge(other.texture),
            size: self.size.merge(other.size),
            offset: self.offset.merge(other.offset),
            text_align: self.text_align.merge(other.text_align),
        }
    }
}

/// `r` borrows what `o` holds.
pub open spec fn borrows<T>(o: Option<T>, r: Option<&T>) -> bool {
    match o {
        Some(v) => r == Some(&v),
        None => r is None,
    }
}

/// `v` is what a field that holds `o` bakes to: the value where set, else
/// the type's default.
pub open spec fn baked_from<T: Default>(o: Option<T>, v: T) -> bool {
    match o {
        Some(x) => v == x,
        None => T::default.ensures((), v),
    }
}

/// `v` is what a borrowed field that holds `o` bakes to: a clone of the
/// value where set, else the type's default.
pub open spec fn baked_from_ref<T: Clone + Default>(o: Option<&T>, v: T) -> bool {
    match o {
        Some(x) => cloned::<T>(*x, v),
        None => T::default.ensures((), v),
    }
}

impl<C, X, S, O, A> Style<C, X, S, O, A, Mergeable> {
    /// The style that sets nothing.
    pub open spec fn empty_spec() -> Self {
        Style { color: None, texture: None, size: None, offset: None, text_align: None }
    }

    /// A style with nothing set.
    pub fn empty() -> (r: Self)
        ensures
            r == Self::empty_spec(),
    {
        Style { color: None, texture: None, size: None, offset: None, text_align: None }
    }

    /// The same settings, borrowed.
    pub fn as_ref(&self) -> (r: Style<C, X, S, O, A, Ref<'_>>)
        ensures
            borrows(self.color, r.color),
            borrows(self.texture, r.texture),
            borrows(self.size, r.size),
            borrows(self.offset, r.offset),
            borrows(self.text_align, r.text_align),
    {
        Style {
            color: self.color.as_ref(),
            texture: self.texture.as_ref(),
            size: self.size.as_ref(),
            offset: self.offset.as_ref(),
            text_align: self.text_align.as_ref(),
        }
    }

    /// Every setting, with the default where unset.
    pub fn finalize(self) -> (r: Style<C, X, S, O, A, Baked>) where
        C: Default,
        X: Default,
        S: Default,
        O: Default,
        A: Default,

        ensures
            baked_from(self.color, r.color),
            baked_from(self.texture, r.texture),
            baked_from(self.size, r.size),
            baked_from(self.offset, r.offset),
            baked_from(self.text_align, r.text_align),
    {
        Style {
            color: self.color.unwrap_or_default(),
            texture: self.texture.unwrap_or_default(),
            size: self.size.unwrap_or_default(),
            offset: self.offset.unwrap_or_default(),
            text_align: self.text_align.unwrap_or_default(),
        }
    }
}

impl<C, X, S, O, A> Default for Style<C, X, S, O, A, Mergeable> {
    fn default() -> (r: Self)
        ensures
            r.color is None && r.texture is None && r.size is None && r.offset is None
                && r.text_align is None,
    {
        Self::empty()
    }
}

impl<'a, C: 'a, X: 'a, S: 'a, O: 'a, A: 'a> Style<C, X, S, O, A, Ref<'a>> {
    /// Every setting, cloned, with the default where unset.
    pub fn finalize(self) -> (r: Style<C, X, S, O, A, Baked>) where
        C: Clone + Default,
        X: Clone + Default,
        S: Clone + Default,
        O: Clone + Default,
        A: Clone + Default,

        ensures
            baked_from_ref(self.color, r.color),
            baked_from_ref(self.texture, r.texture),
            baked_from_ref(self.size, r.size),
            baked_from_ref(self.offset, r.offset),
            baked_from_ref(self.text_align, r.text_align),
    {
        Style {
            color: self.color.cloned().unwrap_or_default(),
            texture: self.texture.cloned().unwrap_or_default(),
            size: self.size.cloned().unwrap_or_default(),
            offset: self.offset.cloned().unwrap_or_default(),
            text_align: self.text_align.cloned().unwrap_or_default(),
        }
    }
}

/// Merging is associative: merging three styles step by step gives the
/// same settings whichever pair is merged first.
pub proof fn lemma_merge_associative<T>(a: Option<T>, b: Option<T>, c: Option<T>)
    ensures
        prefer(prefer(a, b), c) == prefer(a, prefer(b, c)),
{
}

/// The later style wins where it sets a field, and an unset style changes
/// nothing.
pub proof fn lemma_merge_later_wins<T>(a: Option<T>, b: Option<T>)
    ensures
        b is Some ==> prefer(a, b) == b,
        prefer(a, None::<T>) == a,
        prefer(None::<T>, b) == b,
        prefer(prefer(a, b), b) == prefer(a, b),
{
}

/// Merging two styles merges each field on its own: a field the later
/// style sets takes the later value, any other keeps the earlier one.
pub proof fn lemma_style_merge_fields<C, X, S, O, A>(
    a: Style<C, X, S, O, A, Mergeable>,
    b: Style<C, X, S, O, A, Mergeable>,
)
    ensures
        a.merged(b).color == (if b.color is Some { b.color } else { a.color }),
        a.merged(b).texture == (if b.texture is Some { b.texture } else { a.texture }),
        a.merged(b).size == (if b.size is Some { b.size } else { a.size }),
        a.merged(b).offset == (if b.offset is Some { b.offset } else { a.offset }),
        a.merged(b).text_align == (if b.text_align is Some { b.text_align } else { a.text_align }),
{
}

/// The same for borrowed styles: the later style's borrowed field wins
/// where it is set.
pub proof fn lemma_style_ref_merge_fields<'a, C: 'a, X: 'a, S: 'a, O: 'a, A: 'a>(
    a: Style<C, X, S, O, A, Ref<'a>>,
    b: Style<C, X, S, O, A, Ref<'a>>,
)
    ensures
        a.merged(b).color == (if b.color is Some { b.color } else { a.color }),
        a.merged(b).texture == (if b.texture is Some { b.texture } else { a.texture }),
        a.merged(b).size == (if b.size is Some { b.size } else { a.size }),
        a.merged(b).offset == (if b.offset is Some { b.offset } else { a.offset }),
        a.merged(b).text_align == (if b.text_align is Some { b.text_align } else { a.text_align }),
{
}

/// Merging two optional settings: the later one where set, else the
/// earlier one.
pub proof fn lemma_option_merge<T>(a: Option<T>, b: Option<T>)
    ensures
        a.merged(b) == (if b is Some { b } else { a }),
{
}

} // verus!
