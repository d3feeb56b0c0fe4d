//! Arguments of `install-zed`.

use vstd::prelude::*;
use crate::error::{ErrorView, IssueJumperError};
use crate::text::{join3, owned, str_eq};
use crate::zed::InstallOptions;

verus! {

/// The mathematical value of [`InstallOptions`]: the key, `--force` and
/// `--print`.
pub open spec fn options_view(o: InstallOptions) -> (Seq<char>, bool, bool) {
    (o.key@, o.force, o.print)
}

/// The key bound when none is given: Alt pressed twice.
pub open spec fn default_key() -> Seq<char> {
    "alt alt"@
}

/// `run` from the state `acc`: `--key` takes the next argument (a later one
/// wins), `--force` and `--print` are flags; anything else is refused.
pub open spec fn install_args_from(args: Seq<Seq<char>>, acc: (Seq<char>, bool, bool)) -> Result<
    (Seq<char>, bool, bool),
    ErrorView,
>
    decreases args.len(),
{
    if args.len() == 0 {
        Ok(acc)
    } else {
        let a = args[0];
        if a == "--key"@ {
            if args.len() < 2 {
                Err(ErrorView::Usage("--key requires a value"@))
            } else {
                install_args_from(args.skip(2), (args[1], acc.1, acc.2))
            }
        } else if a == "--force"@ {
            install_args_from(args.skip(1), (acc.0, true, acc.2))
        } else if a == "--print"@ {
            install_args_from(args.skip(1), (acc.0, acc.1, true))
        } else {
            Err(ErrorView::Usage("Unknown install-zed argument `"@ + a + "`"@))
        }
    }
}

/// Parses the arguments of `install-zed` into the options of the install.
pub fn run(args: &[String]) -> (r: Result<InstallOptions, IssueJumperError>)
    ensures
        match r {
            Ok(o) => install_args_from(args.deep_view(), (default_key(), false, false)) == Ok::<
                (Seq<char>, bool, bool),
                ErrorView,
            >(options_view(o)),
            Err(e) => install_args_from(args.deep_view(), (default_key(), false, false)) == Err::<
                (Seq<char>, bool, bool),
                ErrorView,
            >(e@),
        },
{
    let ghost all = args.deep_view();
    let mut options = InstallOptions { key: owned("alt alt"), force: false, print: false };
    let mut i: usize = 0;
    assert(all.skip(0) =~= all);
    while i < args.len()
        invariant
            i <= args@.len(),
            all == args.deep_view(),
            install_args_from(all, (default_key(), false, false)) == install_args_from(
                all.skip(i as int),
                options_view(options),
            ),
        decreases args@.len() - i,
    {
        let ghost rest = all.skip(i as int);
        let a = args[i].as_str();
        assert(a@ == rest[0]);
        if str_eq(a, "--key") {
            if i + 1 >= args.len() {
                return Err(IssueJumperError::Usage(owned("--key requires a value")));
            }
            let v = args[i + 1].as_str();
            assert(v@ == rest[1]);
            options.key = owned(v);
            assert(rest.skip(2) =~= all.skip(i + 2));
            i = i + 2;
        } else if str_eq(a, "--force") {
            options.force = true;
            assert(rest.skip(1) =~= all.skip(i + 1));
            i = i + 1;
        } else if str_eq(a, "--print") {
            options.print = true;
            assert(rest.skip(1) =~= all.skip(i + 1));
            i = i + 1;
        } else {
            return Err(IssueJumperError::Usage(join3("Unknown install-zed argument `", a, "`")));
        }
    }
    assert(all.skip(i as int) =~= Seq::<Seq<char>>::empty());
    Ok(options)
}

/// Law: with no argument the key is Alt pressed twice and neither
/// `--force` nor `--print` is set; `--key k --force --print` sets all three,
/// whatever `k` is.
pub proof fn law_install_arguments(k: Seq<char>)
    ensures
        install_args_from(Seq::empty(), (default_key(), false, false)) == Ok::<
            (Seq<char>, bool, bool),
            ErrorView,
        >(("alt alt"@, false, false)),
        install_args_from(seq!["--key"@, k, "--force"@, "--print"@], (default_key(), false, false))
            == Ok::<(Seq<char>, bool, bool), ErrorView>((k, true, true)),
{
    reveal_strlit("--key");
    reveal_strlit("--force");
    reveal_strlit("--print");
    let a = seq!["--key"@, k, "--force"@, "--print"@];
    let a1 = a.skip(2);
    assert(a1 =~= seq!["--force"@, "--print"@]);
    let a2 = a1.skip(1);
    assert(a2 =~= seq!["--print"@]);
    assert(a2.skip(1) =~= Seq::<Seq<char>>::empty());
    assert(install_args_from(a2.skip(1), (k, true, true)) == Ok::<(Seq<char>, bool, bool), ErrorView>(
        (k, true, true),
    ));
    assert(a2[0] == "--print"@);
    assert("--print"@.len() != "--key"@.len());
    assert("--print"@ != "--force"@) by {
        assert("--print"@[2] != "--force"@[2]);
    }
    assert(install_args_from(a2, (k, true, false)) == install_args_from(a2.skip(1), (k, true, true)));
    assert(install_args_from(a1, (k, false, false)) == install_args_from(a2, (k, true, false)));
}

} // verus!
