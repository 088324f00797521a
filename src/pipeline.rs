use crate::tokens::{TokenContext, TokenError, expand};
use crate::vars::Variable;
use vstd::prelude::*;

verus! {

/// How a pipeline reaches an SSH host.
pub enum SshUserAuth {
    Agent,
    Keys { public_key: Option<String>, private_key: String },
    Password { password: String },
}

/// An SSH host written out in the pipeline.
pub struct SshConfig {
    pub host: String,
    pub port: String,
    pub user: String,
    pub userauth: SshUserAuth,
}

/// Where a pipeline's commands run.
pub enum Platform {
    /// An image name, or `machine` for the host itself.
    ContainerOrMachine(String),
    Pull { image: String, pull: bool },
    Build { name: String, tag: String, dockerfile: String },
    Ssh(SshConfig),
    SshFromGlobalConfig { ssh_server: String },
}

/// The platform is the host itself.
pub open spec fn is_machine(p: Platform) -> bool {
    p matches Platform::ContainerOrMachine(image) && image@ == "machine"@
}

/// The text fields of a platform, in order.
pub open spec fn texts_of(p: Platform) -> Seq<Seq<char>> {
    match p {
        Platform::ContainerOrMachine(image) => seq![image@],
        Platform::Pull { image, .. } => seq![image@],
        Platform::Build { name, tag, dockerfile } => seq![name@, tag@, dockerfile@],
        Platform::Ssh(c) => seq![c.host@, c.port@, c.user@] + match c.userauth {
            SshUserAuth::Agent => seq![],
            SshUserAuth::Keys { public_key, private_key } => match public_key {
                Some(k) => seq![k@, private_key@],
                None => seq![private_key@],
            },
            SshUserAuth::Password { password } => seq![password@],
        },
        Platform::SshFromGlobalConfig { ssh_server } => seq![ssh_server@],
    }
}

/// The texts that token substitution rewrites: all of them, but for the
/// host itself, which has none.
pub open spec fn platform_texts(p: Platform) -> Seq<Seq<char>> {
    if is_machine(p) {
        seq![]
    } else {
        texts_of(p)
    }
}

/// `a` and `b` are the same kind of platform with the same non-text fields.
pub open spec fn same_shape(a: Platform, b: Platform) -> bool {
    match (a, b) {
        (Platform::ContainerOrMachine(_), Platform::ContainerOrMachine(_)) => true,
        (Platform::Pull { pull: x, .. }, Platform::Pull { pull: y, .. }) => x == y,
        (Platform::Build { .. }, Platform::Build { .. }) => true,
        (Platform::Ssh(x), Platform::Ssh(y)) => match (x.userauth, y.userauth) {
            (SshUserAuth::Agent, SshUserAuth::Agent) => true,
            (
                SshUserAuth::Keys { public_key: kx, .. },
                SshUserAuth::Keys { public_key: ky, .. },
            ) => kx.is_some() == ky.is_some(),
            (SshUserAuth::Password { .. }, SshUserAuth::Password { .. }) => true,
            _ => false,
        },
        (Platform::SshFromGlobalConfig { .. }, Platform::SshFromGlobalConfig { .. }) => true,
        _ => false,
    }
}

/// `b` is `a` with every text that substitution rewrites expanded.
pub open spec fn platform_applied(ctx: crate::tokens::ContextView, a: Platform, b: Platform) -> bool {
    if is_machine(a) {
        b == a
    } else {
        same_shape(a, b) && texts_of(b) == expanded_all(ctx, texts_of(a))
    }
}

/// The first error met when expanding `texts` in order.
pub open spec fn first_error(ctx: crate::tokens::ContextView, texts: Seq<Seq<char>>) -> Option<
    TokenError,
>
    decreases texts.len(),
{
    if texts.len() == 0 {
        None
    } else {
        match expand(ctx, texts[0]) {
            Err(e) => Some(e),
            Ok(_) => first_error(ctx, texts.drop_first()),
        }
    }
}

/// The expansions of `texts`, each assumed to succeed.
pub open spec fn expanded_all(ctx: crate::tokens::ContextView, texts: Seq<Seq<char>>) -> Seq<
    Seq<char>,
> {
    texts.map_values(|t: Seq<char>| expand(ctx, t)->Ok_0)
}

/// The text by which a platform is shown.
pub open spec fn platform_label(p: Platform) -> Seq<char> {
    match p {
        Platform::ContainerOrMachine(image) => image@,
        Platform::Pull { image, .. } => image@,
        Platform::Build { name, tag, .. } => name@ + ":"@ + tag@,
        Platform::Ssh(c) => c.host@ + ":"@ + c.port@,
        Platform::SshFromGlobalConfig { ssh_server } => ssh_server@,
    }
}

/// `a` followed by `b`.
pub fn concat(a: &str, b: &str) -> (r: String)
    ensures
        r@ == a@ + b@,
{
    let mut s = String::from_str(a);
    s.append(b);
    s
}

/// Expands each of `texts` in order, stopping at the first error.
pub fn expand_texts(ctx: &TokenContext, texts: &Vec<String>) -> (r: Result<Vec<String>, TokenError>)
    ensures
        r is Ok <==> first_error(ctx@, texts_view(texts@)) is None,
        r matches Err(e) ==> first_error(ctx@, texts_view(texts@)) == Some(e),
        r matches Ok(v) ==> texts_view(v@) == expanded_all(ctx@, texts_view(texts@)),
{
    let ghost tv = texts_view(texts@);
    let mut out: Vec<String> = Vec::new();
    let mut i: usize = 0;
    proof {
        assert(tv.subrange(0, tv.len() as int) == tv);
    }
    while i < texts.len()
        invariant
            i <= texts@.len(),
            tv == texts_view(texts@),
            first_error(ctx@, tv) == first_error(ctx@, tv.subrange(i as int, tv.len() as int)),
            texts_view(out@) == expanded_all(ctx@, tv.subrange(0, i as int)),
        decreases texts@.len() - i,
    {
        let v = ctx.apply_context(texts[i].as_str());
        proof {
            let rest = tv.subrange(i as int, tv.len() as int);
            assert(rest[0] == texts@[i as int]@);
            assert(rest.drop_first() == tv.subrange(i + 1, tv.len() as int));
        }
        match v {
            Err(e) => {
                return Err(e);
            },
            Ok(v) => {
                let ghost pre = out@;
                proof {
                    assert(texts_view(pre).len() == i);
                    assert(pre.len() == i);
                    assert(tv[i as int] == texts@[i as int]@);
                    assert(expand(ctx@, tv[i as int]) == Ok::<Seq<char>, TokenError>(v@));
                }
                out.push(v);
                proof {
                    assert(out@ == pre.push(v));
                    assert forall|k: int| 0 <= k <= i implies texts_view(out@)[k] == expanded_all(
                        ctx@,
                        tv.subrange(0, i + 1),
                    )[k] by {
                        if k < i {
                            assert(texts_view(pre)[k] == expanded_all(ctx@, tv.subrange(0, i as int))[k]);
                            assert(out@[k] == pre[k]);
                        } else {
                            assert(out@[k] == v);
                        }
                    }
                    assert(texts_view(out@) =~= expanded_all(ctx@, tv.subrange(0, i + 1)));
                }
            },
        }
        i = i + 1;
    }
    proof {
        assert(tv.subrange(0, tv.len() as int) == tv);
        assert(tv.subrange(tv.len() as int, tv.len() as int) =~= Seq::<Seq<char>>::empty());
    }
    Ok(out)
}

/// The texts of `v` from position `from` on, copied.
pub fn copy_texts(v: &Vec<String>, from: usize) -> (r: Vec<String>)
    requires
        from <= v@.len(),
    ensures
        texts_view(r@) == texts_view(v@).subrange(from as int, v@.len() as int),
{
    let ghost tv = texts_view(v@);
    let mut out: Vec<String> = Vec::new();
    let mut i: usize = from;
    proof {
        assert(texts_view(out@) =~= tv.subrange(from as int, from as int));
    }
    while i < v.len()
        invariant
            from <= i <= v@.len(),
            tv == texts_view(v@),
            texts_view(out@) == tv.subrange(from as int, i as int),
        decreases v@.len() - i,
    {
        let ghost pre = out@;
        out.push(v[i].clone());
        proof {
            assert(texts_view(out@) =~= texts_view(pre).push(v@[i as int]@));
            assert(tv.subrange(from as int, i + 1) =~= tv.subrange(from as int, i as int).push(
                tv[i as int],
            ));
        }
        i = i + 1;
    }
    out
}

/// The views of a vector of texts.
pub open spec fn texts_view(v: Seq<String>) -> Seq<Seq<char>> {
    v.map_values(|s: String| s@)
}

impl Platform {
    pub fn default_ssh_port() -> (r: String)
        ensures
            r@ == "22"@,
    {
        String::from_str("22")
    }

    /// The text by which the platform is shown, as in `Runs on: <label>`.
    pub fn label(&self) -> (r: String)
        ensures
            r@ == platform_label(*self),
    {
        match self {
            Platform::ContainerOrMachine(image) => image.clone(),
            Platform::Pull { image, .. } => image.clone(),
            Platform::Build { name, tag, .. } => {
                let s = concat(name.as_str(), ":");
                concat(s.as_str(), tag.as_str())
            },
            Platform::Ssh(c) => {
                let s = concat(c.host.as_str(), ":");
                concat(s.as_str(), c.port.as_str())
            },
            Platform::SshFromGlobalConfig { ssh_server } => ssh_server.clone(),
        }
    }

    /// The text fields of the platform, in order.
    fn texts(&self) -> (r: Vec<String>)
        ensures
            texts_view(r@) == texts_of(*self),
    {
        let mut v: Vec<String> = Vec::new();
        match self {
            Platform::ContainerOrMachine(image) => v.push(image.clone()),
            Platform::Pull { image, .. } => v.push(image.clone()),
            Platform::Build { name, tag, dockerfile } => {
                v.push(name.clone());
                v.push(tag.clone());
                v.push(dockerfile.clone());
            },
            Platform::Ssh(c) => {
                v.push(c.host.clone());
                v.push(c.port.clone());
                v.push(c.user.clone());
                match &c.userauth {
                    SshUserAuth::Agent => {},
                    SshUserAuth::Keys { public_key, private_key } => {
                        match public_key {
                            Some(k) => v.push(k.clone()),
                            None => {},
                        }
                        v.push(private_key.clone());
                    },
                    SshUserAuth::Password { password } => v.push(password.clone()),
                }
            },
            Platform::SshFromGlobalConfig { ssh_server } => v.push(ssh_server.clone()),
        }
        proof {
            assert(texts_view(v@) =~= texts_of(*self));
        }
        v
    }

    /// The platform of the same kind whose text fields are `t`, in order.
    fn with_texts(&self, t: Vec<String>) -> (r: Platform)
        requires
            t@.len() == texts_of(*self).len(),
        ensures
            same_shape(*self, r),
            texts_of(r) == texts_view(t@),
    {
        let mut t = t;
        let ghost tv = texts_view(t@);
        let r = match self {
            Platform::ContainerOrMachine(_) => Platform::ContainerOrMachine(t.remove(0)),
            Platform::Pull { pull, .. } => Platform::Pull { image: t.remove(0), pull: *pull },
            Platform::Build { .. } => {
                let name = t.remove(0);
                let tag = t.remove(0);
                let dockerfile = t.remove(0);
                Platform::Build { name, tag, dockerfile }
            },
            Platform::Ssh(c) => {
                let host = t.remove(0);
                let port = t.remove(0);
                let user = t.remove(0);
                let userauth = match &c.userauth {
                    SshUserAuth::Agent => SshUserAuth::Agent,
                    SshUserAuth::Keys { public_key, .. } => {
                        let public_key = match public_key {
                            Some(_) => Some(t.remove(0)),
                            None => None,
                        };
                        let private_key = t.remove(0);
                        SshUserAuth::Keys { public_key, private_key }
                    },
                    SshUserAuth::Password { .. } => SshUserAuth::Password { password: t.remove(0) },
                };
                Platform::Ssh(SshConfig { host, port, user, userauth })
            },
            Platform::SshFromGlobalConfig { .. } => Platform::SshFromGlobalConfig {
                ssh_server: t.remove(0),
            },
        };
        proof {
            assert(texts_of(r) =~= tv);
        }
        r
    }

    /// Replaces the tokens in every text of the platform; the host itself has
    /// none. On an error the platform is left as it was and the error is that
    /// of the first text, in order, that fails.
    pub fn apply_tokens(&mut self, ctx: &TokenContext) -> (r: Result<(), TokenError>)
        ensures
            r is Ok <==> first_error(ctx@, platform_texts(*old(self))) is None,
            r matches Err(e) ==> first_error(ctx@, platform_texts(*old(self))) == Some(e)
                && *final(self) == *old(self),
            r is Ok ==> platform_applied(ctx@, *old(self), *final(self)),
            r is Ok && is_machine(*old(self)) ==> *final(self) == *old(self),
            r is Ok && !is_machine(*old(self)) ==> same_shape(*old(self), *final(self))
                && texts_of(*final(self)) == expanded_all(ctx@, texts_of(*old(self))),
    {
        if let Platform::ContainerOrMachine(image) = self {
            if *image == String::from_str("machine") {
                proof {
                    assert(first_error(ctx@, seq![]) is None);
                }
                return Ok(());
            }
        }
        let texts = self.texts();
        match expand_texts(ctx, &texts) {
            Err(e) => Err(e),
            Ok(v) => {
                proof {
                    assert(v@.len() == texts_view(v@).len());
                }
                *self = self.with_texts(v);
                Ok(())
            },
        }
    }
}

/// A file copy between the host and the platform.
pub struct Artifact {
    /// `push` copies into the platform, `get` copies out of it.
    pub method: Option<String>,
    pub from: Option<String>,
    pub to: Option<String>,
    /// The step after which the copy runs; `None` runs it before any step.
    pub after: Option<String>,
    pub ignore_errors: bool,
}

/// One step: sub-pipelines to invoke, then shell commands.
pub struct BuildStep {
    pub name: Option<String>,
    pub working_dir: Option<String>,
    pub commands: Vec<String>,
    pub external: Vec<String>,
}

/// A pipeline that a step may invoke, with the values handed down to it.
pub struct ExternalDetails {
    pub name: String,
    pub pipeline: String,
    pub variables: Vec<Variable>,
    pub environment: Vec<Variable>,
}

/// A sub-pipeline run in this process, or on a named remote server.
pub enum External {
    Local(ExternalDetails),
    Server { server: String, details: ExternalDetails },
}

impl External {
    pub open spec fn spec_name(&self) -> Seq<char> {
        match self {
            External::Local(d) => d.name@,
            External::Server { details, .. } => details.name@,
        }
    }

    pub fn name(&self) -> (r: &String)
        ensures
            r@ == self.spec_name(),
    {
        match self {
            External::Local(d) => &d.name,
            External::Server { details, .. } => &details.name,
        }
    }
}

/// A parsed pipeline.
pub struct Pipeline {
    pub name: Option<String>,
    pub runs_on: Platform,
    pub dispose: bool,
    pub steps: Vec<BuildStep>,
    pub artifacts: Vec<Artifact>,
    pub variables: Vec<Variable>,
    pub environment: Vec<Variable>,
    pub external: Vec<External>,
}

} // verus!
