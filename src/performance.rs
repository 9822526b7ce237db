//! String assembly helpers: a builder that joins parts once, and path joining.

use std::borrow::Cow;

use vstd::prelude::*;

use crate::text::{chars_of, string_of};

verus! {

/// The parts joined in order.
pub open spec fn concat(parts: Seq<Seq<char>>) -> Seq<char>
    decreases parts.len(),
{
    if parts.len() == 0 {
        Seq::empty()
    } else {
        concat(parts.drop_last()) + parts.last()
    }
}

/// Collects string parts and joins them once at the end.
pub struct StringBuilder {
    parts: Vec<String>,
    estimated_size: usize,
}

/// A builder as plain values: its parts and the size it expects.
pub ghost struct BuilderView {
    pub parts: Seq<Seq<char>>,
    pub estimated_size: nat,
}

impl View for StringBuilder {
    type V = BuilderView;

    closed spec fn view(&self) -> BuilderView {
        BuilderView { parts: self.parts.deep_view(), estimated_size: self.estimated_size as nat }
    }
}

impl StringBuilder {
    /// An empty builder that expects a result of about `estimated_size` bytes.
    pub fn with_capacity(estimated_size: usize) -> (r: Self)
        ensures
            r@.parts == Seq::<Seq<char>>::empty(),
            r@.estimated_size == estimated_size,
    {
        let r = Self { parts: Vec::new(), estimated_size };
        assert(r@.parts =~= Seq::<Seq<char>>::empty());
        r
    }

    /// Adds a part at the end.
    pub fn push(&mut self, s: &str)
        ensures
            final(self)@.parts == old(self)@.parts.push(s@),
            final(self)@.estimated_size == old(self)@.estimated_size,
    {
        let ghost before = self.parts.deep_view();
        self.parts.push(String::from_str(s));
        assert(self.parts.deep_view() =~= before.push(s@));
    }

    /// Adds a string slice at the end.
    pub fn push_str(&mut self, s: &str)
        ensures
            final(self)@.parts == old(self)@.parts.push(s@),
            final(self)@.estimated_size == old(self)@.estimated_size,
    {
        let ghost before = self.parts.deep_view();
        self.parts.push(String::from_str(s));
        assert(self.parts.deep_view() =~= before.push(s@));
    }

    /// All parts joined in the order they were added.
    pub fn build(self) -> (r: String)
        ensures
            r@ == concat(self@.parts),
    {
        let ghost pv = self.parts.deep_view();
        let mut result = String::new();
        let mut i: usize = 0;
        while i < self.parts.len()
            invariant
                i <= self.parts@.len(),
                pv == self.parts.deep_view(),
                result@ == concat(pv.take(i as int)),
            decreases self.parts.len() - i,
        {
            assert(pv.take(i + 1).drop_last() =~= pv.take(i as int));
            assert(pv.take(i + 1).last() == self.parts@[i as int]@);
            result.append(self.parts[i].as_str());
            i = i + 1;
        }
        assert(pv.take(i as int) =~= pv);
        result
    }
}

/// `base` without trailing slashes.
pub open spec fn trim_end_slashes(base: Seq<char>) -> Seq<char>
    decreases base.len(),
{
    if base.len() > 0 && base.last() == '/' {
        trim_end_slashes(base.drop_last())
    } else {
        base
    }
}

/// `file` itself when `base` is empty or `file` is absolute, else
/// `base` (trailing slashes removed) and `file` joined by one `/`.
pub open spec fn joined_path(base: Seq<char>, file: Seq<char>) -> Seq<char> {
    if base.len() == 0 || (file.len() > 0 && file[0] == '/') {
        file
    } else {
        trim_end_slashes(base) + "/"@ + file
    }
}

/// Joins a base directory and a file path, borrowing `file` when no joining is
/// needed.
pub fn format_file_path<'a>(base: &'a str, file: &'a str) -> (r: Cow<'a, str>)
    ensures
        r@ == joined_path(base@, file@),
{
    let f = chars_of(file);
    if base.is_empty() || (f.len() > 0 && f[0] == '/') {
        return Cow::Borrowed(file);
    }
    let b = chars_of(base);
    let mut end: usize = b.len();
    assert(b@.subrange(0, b@.len() as int) =~= b@);
    while end > 0 && b[end - 1] == '/'
        invariant
            end <= b@.len(),
            trim_end_slashes(b@.subrange(0, end as int)) == trim_end_slashes(b@),
        decreases end,
    {
        assert(b@.subrange(0, end as int).drop_last() =~= b@.subrange(0, end - 1));
        end = end - 1;
    }
    assert(b@.subrange(0, end as int) =~= b@.subrange(0, end as int));
    let mut s = string_of(&b, 0, end);
    s.append("/");
    s.append(file);
    Cow::Owned(s)
}

/// The batch outputs joined in order.
pub open spec fn joined<R>(outs: Seq<Seq<R>>) -> Seq<R>
    decreases outs.len(),
{
    if outs.len() == 0 {
        Seq::empty()
    } else {
        joined(outs.drop_last()) + outs.last()
    }
}

/// `bounds` cut `items` into consecutive batches of `batch_size` items (the
/// last one possibly shorter), and `outs[k]` is what `processor` returned for
/// batch `k`.
pub open spec fn batch_run<T, F: Fn(&[T]) -> Vec<R>, R>(
    items: Seq<T>,
    batch_size: int,
    processor: F,
    bounds: Seq<int>,
    outs: Seq<Seq<R>>,
) -> bool {
    &&& bounds.len() == outs.len() + 1
    &&& bounds[0] == 0
    &&& bounds.last() == items.len()
    &&& forall|k: int|
        0 <= k < outs.len() ==> {
            &&& bounds[k] < #[trigger] bounds[k + 1]
            &&& bounds[k + 1] == if bounds[k] + batch_size < items.len() {
                bounds[k] + batch_size
            } else {
                items.len() as int
            }
            &&& exists|c: &[T], o: Vec<R>|
                c@ == items.subrange(bounds[k], bounds[k + 1]) && call_ensures(
                    processor,
                    (c,),
                    o,
                ) && o@ == outs[k]
        }
}

/// Runs `processor` on consecutive batches of at most `batch_size` items and
/// joins the results in batch order.
pub fn batch_process<T, F, R>(items: &[T], batch_size: usize, processor: F) -> (r: Vec<R>) where
    F: Fn(&[T]) -> Vec<R>,

    requires
        batch_size > 0,
        forall|c: &[T]| call_requires(processor, (c,)),
    ensures
        exists|bounds: Seq<int>, outs: Seq<Seq<R>>|
            batch_run(items@, batch_size as int, processor, bounds, outs) && r@ == joined(outs),
{
    let mut results: Vec<R> = Vec::new();
    let ghost mut bounds: Seq<int> = seq![0int];
    let ghost mut outs: Seq<Seq<R>> = Seq::empty();
    let n = items.len();
    let mut start: usize = 0;
    while start < n
        invariant
            batch_size > 0,
            n == items@.len(),
            start <= n,
            forall|c: &[T]| call_requires(processor, (c,)),
            bounds.len() == outs.len() + 1,
            bounds[0] == 0,
            bounds.last() == start,
            forall|k: int|
                0 <= k < outs.len() ==> {
                    &&& bounds[k] < #[trigger] bounds[k + 1]
                    &&& bounds[k + 1] == if bounds[k] + batch_size < items@.len() {
                        bounds[k] + batch_size
                    } else {
                        items@.len() as int
                    }
                    &&& exists|c: &[T], o: Vec<R>|
                        c@ == items@.subrange(bounds[k], bounds[k + 1]) && call_ensures(
                            processor,
                            (c,),
                            o,
                        ) && o@ == outs[k]
                },
            results@ == joined(outs),
        decreases n - start,
    {
        let end: usize = if batch_size < n - start {
            start + batch_size
        } else {
            n
        };
        let chunk = &items[start..end];
        let mut batch_results = processor(chunk);
        let ghost out = batch_results;
        assert(chunk@ == items@.subrange(start as int, end as int));
        let ghost old_bounds = bounds;
        let ghost old_outs = outs;
        proof {
            bounds = bounds.push(end as int);
            outs = outs.push(out@);
            assert forall|k: int| 0 <= k < outs.len() implies {
                &&& bounds[k] < #[trigger] bounds[k + 1]
                &&& bounds[k + 1] == if bounds[k] + batch_size < items@.len() {
                    bounds[k] + batch_size
                } else {
                    items@.len() as int
                }
                &&& exists|c: &[T], o: Vec<R>|
                    c@ == items@.subrange(bounds[k], bounds[k + 1]) && call_ensures(
                        processor,
                        (c,),
                        o,
                    ) && o@ == outs[k]
            } by {
                if k < old_outs.len() {
                    assert(bounds[k] == old_bounds[k]);
                    assert(bounds[k + 1] == old_bounds[k + 1]);
                    assert(outs[k] == old_outs[k]);
                } else {
                    assert(bounds[k] == start);
                    assert(bounds[k + 1] == end);
                    assert(outs[k] == out@);
                    assert(chunk@ == items@.subrange(bounds[k], bounds[k + 1]) && call_ensures(
                        processor,
                        (chunk,),
                        out,
                    ) && out@ == outs[k]);
                }
            }
            assert(outs.drop_last() =~= old_outs);
        }
        results.append(&mut batch_results);
        start = end;
    }
    assert(batch_run(items@, batch_size as int, processor, bounds, outs));
    results
}

} // verus!
