use vstd::prelude::*;

verus! {

/// The path made of `parts`, with `/` between them.
pub open spec fn joined_path(parts: Seq<Seq<char>>) -> Seq<char>
    decreases parts.len(),
{
    if parts.len() == 0 {
        Seq::empty()
    } else if parts.len() == 1 {
        parts[0]
    } else {
        joined_path(parts.drop_last()) + seq!['/'] + parts.last()
    }
}

/// Joining puts exactly one `/` after every component but the last: the
/// joined path followed by `/` is each component followed by `/`, one after
/// the other.
pub proof fn lemma_joined_path_components(parts: Seq<Seq<char>>)
    requires
        parts.len() > 0,
    ensures
        joined_path(parts) + seq!['/'] == parts.map_values(|p: Seq<char>| p + seq!['/']).flatten(),
    decreases parts.len(),
{
    let slashed = parts.map_values(|p: Seq<char>| p + seq!['/']);
    let prefix = parts.drop_last();
    assert(slashed == prefix.map_values(|p: Seq<char>| p + seq!['/']).push(parts.last() + seq!['/']));
    prefix.map_values(|p: Seq<char>| p + seq!['/']).lemma_flatten_push(parts.last() + seq!['/']);
    if parts.len() == 1 {
        assert(prefix.map_values(|p: Seq<char>| p + seq!['/']) =~= Seq::<Seq<char>>::empty());
        assert(joined_path(parts) + seq!['/'] =~= Seq::<Seq<char>>::empty().flatten() + (parts.last()
            + seq!['/']));
    } else {
        lemma_joined_path_components(prefix);
        assert(joined_path(parts) + seq!['/'] =~= (joined_path(prefix) + seq!['/']) + (parts.last()
            + seq!['/']));
    }
}

/// The stored form of a path relative to the scanned directory, from its
/// components: the components with `/` between them, whatever the platform's
/// separator.
pub fn join_relative_path(parts: &Vec<String>) -> (path: String)
    ensures
        path@ == joined_path(parts@.map_values(|s: String| s@)),
        parts@.len() == 0 ==> path@.len() == 0,
        parts@.len() > 0 ==> path@ + seq!['/'] == parts@.map_values(|s: String| s@ + seq!['/']).flatten(),
{
    proof {
        reveal_strlit("/");
    }
    let ghost views = parts@.map_values(|s: String| s@);
    let mut path = String::new();
    let mut i: usize = 0;
    while i < parts.len()
        invariant
            i <= parts@.len(),
            views == parts@.map_values(|s: String| s@),
            path@ == joined_path(views.take(i as int)),
        decreases parts@.len() - i,
    {
        proof {
            reveal_strlit("/");
            assert(views.take(i + 1).drop_last() == views.take(i as int));
            assert(views.take(i + 1).last() == parts@[i as int]@);
        }
        if i > 0 {
            path.append("/");
        } else {
            assert(path@ == Seq::<char>::empty());
        }
        path.append(parts[i].as_str());
        proof {
            if i == 0 {
                assert(path@ =~= parts@[0]@);
            }
        }
        i = i + 1;
    }
    assert(views.take(parts@.len() as int) == views);
    proof {
        if parts@.len() > 0 {
            lemma_joined_path_components(views);
            assert(views.map_values(|p: Seq<char>| p + seq!['/']) =~= parts@.map_values(
                |s: String| s@ + seq!['/'],
            ));
        }
    }
    path
}

/// Whether a file with extension `extension` is a Markdown file.
pub fn is_markdown_extension(extension: &str) -> (markdown: bool)
    ensures
        markdown == (extension@ == "md"@),
{
    let md = "md".to_owned();
    let ext = extension.to_owned();
    ext == md
}

/// A time given as nanoseconds since the Unix epoch, as the store keeps it:
/// `None` where it does not fit a signed 64-bit integer.
pub fn epoch_ns(nanos: u128) -> (ns: Option<i64>)
    ensures
        nanos <= i64::MAX ==> ns == Some(nanos as i64),
        nanos > i64::MAX ==> ns is None,
{
    if nanos <= i64::MAX as u128 {
        Some(nanos as i64)
    } else {
        None
    }
}

} // verus!
