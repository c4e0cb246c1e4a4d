//! Builtin-plugin configuration: raw user-facing option records and their
//! conversion into typed configuration, including the registration of the
//! builtin transform plugins in a fixed order.
//!
//! The transform plugins themselves (HTML, CSS, progress, copy, banner,
//! dev-friendly split chunks) are external collaborators: only their
//! configuration and their place in the plugin order is modelled here.

use vstd::prelude::*;

use crate::error::CoreError;
use crate::options::TreeShaking;
use crate::paths::str_equal;
use crate::plugin::{lemma_plugin_like_refl, plugin_like, Plugin};

verus! {

/// A regular-expression matcher, carried by its source pattern. Compiling
/// and running the pattern belongs to the consumers of the configuration.
#[derive(Debug, Clone, PartialEq, Eq)]
pub struct RegexMatcher {
    pub source: String,
}

/// One minification match-condition as the user wrote it.
#[derive(Debug, PartialEq, Eq)]
pub struct RawMinificationCondition {
    /// `"string"` or `"regexp"`.
    pub kind: String,
    pub string_matcher: Option<String>,
    pub regexp_matcher: Option<String>,
}

/// A minification match-condition set as the user wrote it.
#[derive(Debug, PartialEq, Eq)]
pub struct RawMinificationConditions {
    /// `"string"`, `"regexp"` or `"array"`.
    pub kind: String,
    pub string_matcher: Option<String>,
    pub regexp_matcher: Option<String>,
    pub array_matcher: Option<Vec<RawMinificationCondition>>,
}

/// Minification options as the user wrote them.
#[derive(Debug, PartialEq, Eq)]
pub struct RawMinification {
    pub passes: u32,
    pub drop_console: bool,
    pub pure_funcs: Vec<String>,
    pub extract_comments: Option<String>,
    pub test: Option<RawMinificationConditions>,
    pub included: Option<RawMinificationConditions>,
    pub exclude: Option<RawMinificationConditions>,
}

/// A typed minification match-condition.
#[derive(Debug, Clone, PartialEq, Eq)]
pub enum MinificationCondition {
    Text(String),
    Regexp(RegexMatcher),
}

/// A typed minification match-condition set.
#[derive(Debug, PartialEq, Eq)]
pub enum MinificationConditions {
    Text(String),
    Regexp(RegexMatcher),
    Array(Vec<MinificationCondition>),
}

/// Typed minification options.
#[derive(Debug, PartialEq, Eq)]
pub struct Minification {
    pub passes: usize,
    pub drop_console: bool,
    pub pure_funcs: Vec<String>,
    pub extract_comments: Option<String>,
    pub test: Option<MinificationConditions>,
    pub included: Option<MinificationConditions>,
    pub exclude: Option<MinificationConditions>,
}

/// What converting one raw condition yields: a condition of kind `string`
/// needs its string matcher, one of kind `regexp` its pattern; any other
/// kind is a configuration error.
pub open spec fn spec_condition_from_raw(r: RawMinificationCondition) -> Result<
    MinificationCondition,
    CoreError,
> {
    if r.kind@ == "string"@ {
        match r.string_matcher {
            Some(s) => Ok(MinificationCondition::Text(s)),
            None => Err(CoreError::MissingStringMatcher),
        }
    } else if r.kind@ == "regexp"@ {
        match r.regexp_matcher {
            Some(s) => Ok(MinificationCondition::Regexp(RegexMatcher { source: s })),
            None => Err(CoreError::MissingRegexpMatcher),
        }
    } else {
        Err(CoreError::UnknownConditionKind)
    }
}

/// Front-to-back conversion of a raw condition list; the first failing
/// element's error is the result.
pub open spec fn spec_conditions_vec(s: Seq<RawMinificationCondition>) -> Result<
    Seq<MinificationCondition>,
    CoreError,
>
    decreases s.len(),
{
    if s.len() == 0 {
        Ok(Seq::empty())
    } else {
        match spec_condition_from_raw(s[0]) {
            Err(e) => Err(e),
            Ok(c) => match spec_conditions_vec(s.subrange(1, s.len() as int)) {
                Err(e) => Err(e),
                Ok(rest) => Ok(seq![c] + rest),
            },
        }
    }
}

/// The error that converting a raw condition set reports, if any.
pub open spec fn spec_conditions_err(r: RawMinificationConditions) -> Option<CoreError> {
    if r.kind@ == "string"@ {
        if r.string_matcher is Some {
            None
        } else {
            Some(CoreError::MissingStringMatcher)
        }
    } else if r.kind@ == "regexp"@ {
        if r.regexp_matcher is Some {
            None
        } else {
            Some(CoreError::MissingRegexpMatcher)
        }
    } else if r.kind@ == "array"@ {
        match r.array_matcher {
            Some(v) => match spec_conditions_vec(v@) {
                Ok(_) => None,
                Err(e) => Some(e),
            },
            None => Some(CoreError::MissingArrayMatcher),
        }
    } else {
        Some(CoreError::UnknownConditionKind)
    }
}

/// What a successful conversion of a raw condition set looks like.
pub open spec fn spec_conditions_ok(r: RawMinificationConditions, c: MinificationConditions) -> bool {
    if r.kind@ == "string"@ {
        c == MinificationConditions::Text(r.string_matcher->0)
    } else if r.kind@ == "regexp"@ {
        c == MinificationConditions::Regexp(RegexMatcher { source: r.regexp_matcher->0 })
    } else if r.kind@ == "array"@ {
        c matches MinificationConditions::Array(v) && spec_conditions_vec(r.array_matcher->0@)
            == Ok::<Seq<MinificationCondition>, CoreError>(v@)
    } else {
        false
    }
}

impl MinificationCondition {
    /// Typed form of one raw condition.
    pub fn try_from(x: RawMinificationCondition) -> (r: Result<Self, CoreError>)
        ensures
            r == spec_condition_from_raw(x),
    {
        if str_equal(x.kind.as_str(), "string") {
            match x.string_matcher {
                Some(s) => Ok(MinificationCondition::Text(s)),
                None => Err(CoreError::MissingStringMatcher),
            }
        } else if str_equal(x.kind.as_str(), "regexp") {
            match x.regexp_matcher {
                Some(s) => Ok(MinificationCondition::Regexp(RegexMatcher { source: s })),
                None => Err(CoreError::MissingRegexpMatcher),
            }
        } else {
            Err(CoreError::UnknownConditionKind)
        }
    }
}

/// If every element before `k` converts and element `k` fails with `e`,
/// the whole list conversion fails with `e`.
proof fn lemma_conditions_vec_err(s: Seq<RawMinificationCondition>, k: int, e: CoreError)
    requires
        0 <= k < s.len(),
        forall|j: int| 0 <= j < k ==> spec_condition_from_raw(s[j]) is Ok,
        spec_condition_from_raw(s[k]) == Err::<MinificationCondition, CoreError>(e),
    ensures
        spec_conditions_vec(s) == Err::<Seq<MinificationCondition>, CoreError>(e),
    decreases k,
{
    if k == 0 {
    } else {
        let t = s.subrange(1, s.len() as int);
        assert(forall|j: int| 0 <= j < k - 1 ==> t[j] == s[j + 1] && spec_condition_from_raw(
            #[trigger] t[j],
        ) is Ok);
        assert(t[k - 1] == s[k]);
        lemma_conditions_vec_err(t, k - 1, e);
    }
}

/// If every element converts, the list conversion yields exactly the
/// element-wise conversions, in order.
proof fn lemma_conditions_vec_ok(s: Seq<RawMinificationCondition>)
    requires
        forall|j: int| 0 <= j < s.len() ==> spec_condition_from_raw(s[j]) is Ok,
    ensures
        spec_conditions_vec(s) is Ok,
        spec_conditions_vec(s)->Ok_0 == Seq::new(
            s.len(),
            |j: int| spec_condition_from_raw(s[j])->Ok_0,
        ),
    decreases s.len(),
{
    if s.len() == 0 {
        assert(spec_conditions_vec(s)->Ok_0 =~= Seq::new(
            s.len(),
            |j: int| spec_condition_from_raw(s[j])->Ok_0,
        ));
    } else {
        let t = s.subrange(1, s.len() as int);
        assert(forall|j: int| 0 <= j < t.len() ==> t[j] == s[j + 1] && spec_condition_from_raw(
            #[trigger] t[j],
        ) is Ok);
        lemma_conditions_vec_ok(t);
        assert(spec_conditions_vec(s)->Ok_0 =~= Seq::new(
            s.len(),
            |j: int| spec_condition_from_raw(s[j])->Ok_0,
        ));
    }
}

impl MinificationConditions {
    /// Typed form of one raw condition set.
    #[verifier::loop_isolation(false)]
    pub fn try_from(value: RawMinificationConditions) -> (r: Result<Self, CoreError>)
        ensures
            r is Ok <==> spec_conditions_err(value) is None,
            r is Ok ==> spec_conditions_ok(value, r->Ok_0),
            r is Err ==> Some(r->Err_0) == spec_conditions_err(value),
    {
        if str_equal(value.kind.as_str(), "string") {
            match value.string_matcher {
                Some(s) => Ok(MinificationConditions::Text(s)),
                None => Err(CoreError::MissingStringMatcher),
            }
        } else if str_equal(value.kind.as_str(), "regexp") {
            match value.regexp_matcher {
                Some(s) => Ok(MinificationConditions::Regexp(RegexMatcher { source: s })),
                None => Err(CoreError::MissingRegexpMatcher),
            }
        } else if str_equal(value.kind.as_str(), "array") {
            match value.array_matcher {
                None => Err(CoreError::MissingArrayMatcher),
                Some(mut raws) => {
                    let ghost orig = raws@;
                    let total = raws.len();
                    let mut out: Vec<MinificationCondition> = Vec::new();
                    let mut k: usize = 0;
                    loop
                        invariant
                            total == orig.len(),
                            k <= total,
                            raws@ == orig.subrange(k as int, orig.len() as int),
                            forall|j: int| 0 <= j < k ==> spec_condition_from_raw(orig[j]) is Ok,
                            out@ == Seq::new(k as nat, |j: int| spec_condition_from_raw(orig[j])->Ok_0),
                        decreases orig.len() - k,
                    {
                        if raws.len() == 0 {
                            proof {
                                lemma_conditions_vec_ok(orig);
                            }
                            return Ok(MinificationConditions::Array(out));
                        }
                        let raw = raws.remove(0);
                        proof {
                            assert(raw == orig[k as int]);
                            assert(raws@ =~= orig.subrange(k as int + 1, orig.len() as int));
                        }
                        match MinificationCondition::try_from(raw) {
                            Ok(c) => {
                                out.push(c);
                                proof {
                                    assert(out@ =~= Seq::new(
                                        (k + 1) as nat,
                                        |j: int| spec_condition_from_raw(orig[j])->Ok_0,
                                    ));
                                }
                                k += 1;
                            }
                            Err(e) => {
                                proof {
                                    lemma_conditions_vec_err(orig, k as int, e);
                                }
                                return Err(e);
                            }
                        }
                    }
                }
            }
        } else {
            Err(CoreError::UnknownConditionKind)
        }
    }
}

/// The error reported for an optional raw condition set, if any.
pub open spec fn spec_opt_conditions_err(o: Option<RawMinificationConditions>) -> Option<CoreError> {
    match o {
        None => None,
        Some(rc) => spec_conditions_err(rc),
    }
}

/// What a successful conversion of an optional raw condition set looks like.
pub open spec fn spec_opt_conditions_ok(
    o: Option<RawMinificationConditions>,
    c: Option<MinificationConditions>,
) -> bool {
    match o {
        None => c is None,
        Some(rc) => c matches Some(cc) && spec_conditions_ok(rc, cc),
    }
}

/// The first error among the three condition slots of raw minification
/// options, in the order they are converted.
pub open spec fn spec_minification_err(v: RawMinification) -> Option<CoreError> {
    if spec_opt_conditions_err(v.test) is Some {
        spec_opt_conditions_err(v.test)
    } else if spec_opt_conditions_err(v.included) is Some {
        spec_opt_conditions_err(v.included)
    } else {
        spec_opt_conditions_err(v.exclude)
    }
}

/// What successful minification conversion preserves: every plain field is
/// carried over and each condition slot converts element-wise.
pub open spec fn spec_minification_ok(v: RawMinification, m: Minification) -> bool {
    &&& m.passes == v.passes as usize
    &&& m.drop_console == v.drop_console
    &&& m.pure_funcs == v.pure_funcs
    &&& m.extract_comments == v.extract_comments
    &&& spec_opt_conditions_ok(v.test, m.test)
    &&& spec_opt_conditions_ok(v.included, m.included)
    &&& spec_opt_conditions_ok(v.exclude, m.exclude)
}

/// Typed form of an optional raw condition set.
fn try_condition(raw_condition: Option<RawMinificationConditions>) -> (r: Result<
    Option<MinificationConditions>,
    CoreError,
>)
    ensures
        r is Ok <==> spec_opt_conditions_err(raw_condition) is None,
        r is Ok ==> spec_opt_conditions_ok(raw_condition, r->Ok_0),
        r is Err ==> Some(r->Err_0) == spec_opt_conditions_err(raw_condition),
{
    match raw_condition {
        None => Ok(None),
        Some(test) => match MinificationConditions::try_from(test) {
            Ok(c) => Ok(Some(c)),
            Err(e) => Err(e),
        },
    }
}

impl Minification {
    /// Typed form of raw minification options.
    pub fn try_from(value: RawMinification) -> (r: Result<Self, CoreError>)
        ensures
            r is Ok <==> spec_minification_err(value) is None,
            r is Ok ==> spec_minification_ok(value, r->Ok_0),
            r is Err ==> Some(r->Err_0) == spec_minification_err(value),
    {
        let test = match try_condition(value.test) {
            Ok(c) => c,
            Err(e) => {
                return Err(e);
            }
        };
        let included = match try_condition(value.included) {
            Ok(c) => c,
            Err(e) => {
                return Err(e);
            }
        };
        let exclude = match try_condition(value.exclude) {
            Ok(c) => c,
            Err(e) => {
                return Err(e);
            }
        };
        Ok(Minification {
            passes: value.passes as usize,
            drop_console: value.drop_console,
            pure_funcs: value.pure_funcs,
            extract_comments: value.extract_comments,
            test,
            included,
            exclude,
        })
    }
}

/// Target-environment preset as the user wrote it.
#[derive(Debug, PartialEq, Eq)]
pub struct RawPresetEnv {
    pub targets: Vec<String>,
    /// `"usage"` or `"entry"`.
    pub mode: Option<String>,
    pub core_js: Option<String>,
}

/// How preset-env injects polyfills.
#[derive(Debug, Clone, Copy, PartialEq, Eq)]
pub enum PresetEnvMode {
    Usage,
    Entry,
}

/// Typed target-environment preset.
#[derive(Debug, PartialEq, Eq)]
pub struct PresetEnv {
    pub targets: Vec<String>,
    pub mode: Option<PresetEnvMode>,
    pub core_js: Option<String>,
}

/// `"usage"` and `"entry"` name the two modes; anything else means none.
pub open spec fn spec_preset_env_mode(mode: Option<String>) -> Option<PresetEnvMode> {
    match mode {
        None => None,
        Some(m) => if m@ == "usage"@ {
            Some(PresetEnvMode::Usage)
        } else if m@ == "entry"@ {
            Some(PresetEnvMode::Entry)
        } else {
            None
        },
    }
}

impl PresetEnv {
    /// Typed form of the raw preset.
    pub fn from(raw_preset_env: RawPresetEnv) -> (r: Self)
        ensures
            r.targets == raw_preset_env.targets,
            r.core_js == raw_preset_env.core_js,
            r.mode == spec_preset_env_mode(raw_preset_env.mode),
    {
        let mode = match raw_preset_env.mode {
            None => None,
            Some(m) => {
                if str_equal(m.as_str(), "usage") {
                    Some(PresetEnvMode::Usage)
                } else if str_equal(m.as_str(), "entry") {
                    Some(PresetEnvMode::Entry)
                } else {
                    None
                }
            }
        };
        PresetEnv { targets: raw_preset_env.targets, mode, core_js: raw_preset_env.core_js }
    }
}

/// Code-generation options as the user wrote them.
#[derive(Debug, Clone, Copy, PartialEq, Eq)]
pub struct RawCodeGeneration {
    pub keep_comments: bool,
}

/// Typed code-generation options.
#[derive(Debug, Clone, Copy, PartialEq, Eq)]
pub struct CodeGeneration {
    pub keep_comments: bool,
}

impl CodeGeneration {
    pub fn from(raw_code_generation: RawCodeGeneration) -> (r: Self)
        ensures
            r.keep_comments == raw_code_generation.keep_comments,
    {
        CodeGeneration { keep_comments: raw_code_generation.keep_comments }
    }
}

/// Configuration of one emitted HTML page.
#[derive(Debug, Clone, PartialEq, Eq)]
pub struct HtmlPluginConfig {
    pub template: Option<String>,
    pub title: Option<String>,
}

/// PostCSS configuration handed to the CSS plugin.
#[derive(Debug, Clone, Copy, PartialEq, Eq)]
pub struct PostCssConfig {
    pub pxtorem: bool,
}

/// CSS plugin configuration as the user wrote it.
#[derive(Debug, Clone, Copy, PartialEq, Eq)]
pub struct CssPluginConfig {
    pub modules: bool,
}

/// The CSS plugin's resolved configuration: user options combined with the
/// preset-env targets.
#[derive(Debug, Clone, PartialEq, Eq)]
pub struct CssResolvedConfig {
    pub targets: Option<Vec<String>>,
    pub postcss: PostCssConfig,
    pub modules: bool,
}

/// Progress-reporting configuration.
#[derive(Debug, Clone, PartialEq, Eq)]
pub struct ProgressPluginConfig {
    pub prefix: Option<String>,
}

/// One copy pattern: a source and an optional target.
#[derive(Debug, Clone, PartialEq, Eq)]
pub struct CopyPattern {
    pub from: String,
    pub to: Option<String>,
}

/// Configuration of the copy plugin.
#[derive(Debug, Clone, PartialEq, Eq)]
pub struct CopyConfig {
    pub patterns: Vec<CopyPattern>,
}

/// Configuration of one banner plugin instance.
#[derive(Debug, Clone, PartialEq, Eq)]
pub struct BannerConfig {
    pub banner: String,
    pub footer: bool,
}

/// Configuration of one import-rewriting rule.
#[derive(Debug, Clone, PartialEq, Eq)]
pub struct PluginImportConfig {
    pub library_name: String,
}

/// Relay transform configuration.
#[derive(Debug, Clone, PartialEq, Eq)]
pub struct RelayConfig {
    pub artifact_directory: Option<String>,
}

/// React transform options.
#[derive(Debug, Clone, PartialEq, Eq)]
pub struct ReactOptions {
    pub runtime: Option<String>,
}

/// Decorator transform options.
#[derive(Debug, Clone, Copy, PartialEq, Eq)]
pub struct DecoratorOptions {
    pub legacy: bool,
    pub emit_metadata: bool,
}

/// Typed builtin configuration, the result of applying the raw options.
#[derive(Debug)]
pub struct Builtins {
    pub minify_options: Option<Minification>,
    pub preset_env: Option<PresetEnv>,
    pub define: Vec<(String, String)>,
    pub provide: Vec<(String, Vec<String>)>,
    pub tree_shaking: TreeShaking,
    pub react: ReactOptions,
    pub decorator: Option<DecoratorOptions>,
    pub no_emit_assets: bool,
    pub dev_friendly_split_chunks: bool,
    /// Parsed emotion options, kept as the JSON value the user supplied.
    pub emotion: Option<serde_json::Value>,
    pub plugin_import: Option<Vec<PluginImportConfig>>,
    pub relay: Option<RelayConfig>,
    pub code_generation: Option<CodeGeneration>,
}

#[verifier::external_type_specification]
#[verifier::external_body]
pub struct ExJsonValue(serde_json::Value);

/// Whether a string parses as JSON; the result of `serde_json::from_str`
/// depends on the string alone.
pub uninterp spec fn json_valid(s: Seq<char>) -> bool;

/// Relies on serde_json::from_str::<serde_json::Value>: parses a string as a
/// JSON document; succeeds exactly on valid JSON.
#[verifier::external_body]
fn parse_json(s: &str) -> (r: Result<serde_json::Value, CoreError>)
    ensures
        r is Ok <==> json_valid(s@),
        r is Err ==> r->Err_0 == CoreError::InvalidEmotionOptions,
{
    match serde_json::from_str::<serde_json::Value>(s) {
        Ok(v) => Ok(v),
        Err(_) => Err(CoreError::InvalidEmotionOptions),
    }
}

/// Raw builtin options, straight from the user.
#[derive(Debug)]
pub struct RawBuiltins {
    pub html: Option<Vec<HtmlPluginConfig>>,
    pub css: Option<CssPluginConfig>,
    pub postcss: Option<PostCssConfig>,
    pub minify_options: Option<RawMinification>,
    pub preset_env: Option<RawPresetEnv>,
    pub define: Vec<(String, String)>,
    pub provide: Vec<(String, Vec<String>)>,
    /// `"true"` enables tree shaking.
    pub tree_shaking: String,
    pub progress: Option<ProgressPluginConfig>,
    pub react: ReactOptions,
    pub decorator: Option<DecoratorOptions>,
    pub no_emit_assets: bool,
    pub emotion: Option<String>,
    pub dev_friendly_split_chunks: bool,
    pub copy: Option<CopyConfig>,
    pub banner: Option<Vec<BannerConfig>>,
    pub plugin_import: Option<Vec<PluginImportConfig>>,
    pub relay: Option<RelayConfig>,
    pub code_generation: Option<RawCodeGeneration>,
}

/// The HTML plugins a configuration registers, one per page.
pub open spec fn spec_html_seq(html: Option<Vec<HtmlPluginConfig>>) -> Seq<Plugin> {
    match html {
        Some(hs) => hs@.map_values(|h: HtmlPluginConfig| Plugin::Html(h)),
        None => Seq::empty(),
    }
}

/// The CSS plugin a configuration registers, if any: user options combined
/// with the preset-env targets and the PostCSS defaults.
pub open spec fn spec_css_seq(
    css: Option<CssPluginConfig>,
    postcss: Option<PostCssConfig>,
    targets: Option<Vec<String>>,
) -> Seq<Plugin> {
    match css {
        Some(c) => seq![
            Plugin::Css(
                CssResolvedConfig {
                    targets,
                    postcss: match postcss {
                        Some(p) => p,
                        None => PostCssConfig { pxtorem: false },
                    },
                    modules: c.modules,
                },
            ),
        ],
        None => Seq::empty(),
    }
}

/// The progress, split-chunks and copy plugins, in that order.
pub open spec fn spec_middle_seq(
    progress: Option<ProgressPluginConfig>,
    dev_friendly_split_chunks: bool,
    copy: Option<CopyConfig>,
) -> Seq<Plugin> {
    (match progress {
        Some(p) => seq![Plugin::Progress(p)],
        None => Seq::empty(),
    }) + (if dev_friendly_split_chunks {
        seq![Plugin::DevFriendlySplitChunks]
    } else {
        Seq::empty()
    }) + (match copy {
        Some(c) => seq![Plugin::Copy(c)],
        None => Seq::empty(),
    })
}

/// The banner plugins, one per banner.
pub open spec fn spec_banner_seq(banner: Option<Vec<BannerConfig>>) -> Seq<Plugin> {
    match banner {
        Some(bs) => bs@.map_values(|c: BannerConfig| Plugin::Banner(c)),
        None => Seq::empty(),
    }
}

/// The HTML plugins a raw configuration registers.
pub open spec fn spec_html_plugins(b: RawBuiltins) -> Seq<Plugin> {
    spec_html_seq(b.html)
}

/// The CSS plugin a raw configuration registers, if any.
pub open spec fn spec_css_plugins(b: RawBuiltins) -> Seq<Plugin> {
    spec_css_seq(
        b.css,
        b.postcss,
        match b.preset_env {
            Some(p) => Some(p.targets),
            None => None,
        },
    )
}

/// The progress, split-chunks and copy plugins a raw configuration
/// registers.
pub open spec fn spec_middle_plugins(b: RawBuiltins) -> Seq<Plugin> {
    spec_middle_seq(b.progress, b.dev_friendly_split_chunks, b.copy)
}

/// The banner plugins a raw configuration registers.
pub open spec fn spec_banner_plugins(b: RawBuiltins) -> Seq<Plugin> {
    spec_banner_seq(b.banner)
}

/// The builtin plugins that a raw configuration registers, in order: HTML
/// pages, CSS, progress, dev-friendly split chunks, copy, banners.
pub open spec fn spec_registered_plugins(b: RawBuiltins) -> Seq<Plugin> {
    spec_html_plugins(b) + spec_css_plugins(b) + spec_middle_plugins(b) + spec_banner_plugins(b)
}

/// The first conversion error in raw builtins: minification first, then the
/// emotion JSON.
pub open spec fn spec_builtins_err(b: RawBuiltins) -> Option<CoreError> {
    let minify_err = match b.minify_options {
        Some(m) => spec_minification_err(m),
        None => None,
    };
    if minify_err is Some {
        minify_err
    } else {
        match b.emotion {
            Some(s) => if json_valid(s@) {
                None
            } else {
                Some(CoreError::InvalidEmotionOptions)
            },
            None => None,
        }
    }
}

/// What the typed builtins keep of the raw options on success.
pub open spec fn spec_builtins_ok(b: RawBuiltins, out: Builtins) -> bool {
    &&& (match b.minify_options {
        None => out.minify_options is None,
        Some(m) => out.minify_options matches Some(mo) && spec_minification_ok(m, mo),
    })
    &&& (match b.preset_env {
        None => out.preset_env is None,
        Some(p) => out.preset_env == Some(
            PresetEnv {
                targets: p.targets,
                mode: spec_preset_env_mode(p.mode),
                core_js: p.core_js,
            },
        ),
    })
    &&& out.define == b.define
    &&& out.provide == b.provide
    &&& (out.tree_shaking.spec_enable() <==> b.tree_shaking@ == "true"@)
    &&& out.react == b.react
    &&& out.decorator == b.decorator
    &&& out.no_emit_assets == b.no_emit_assets
    &&& out.dev_friendly_split_chunks == b.dev_friendly_split_chunks
    &&& (out.emotion is Some <==> b.emotion is Some)
    &&& out.plugin_import == b.plugin_import
    &&& out.relay == b.relay
    &&& (match b.code_generation {
        None => out.code_generation is None,
        Some(c) => out.code_generation == Some(CodeGeneration { keep_comments: c.keep_comments }),
    })
}

/// Pointwise correspondence between the registered-plugin description and
/// the plugins actually pushed, segment by segment.
proof fn lemma_plugins_pointwise(
    s_html: Seq<Plugin>,
    s_css: Seq<Plugin>,
    s_rest: Seq<Plugin>,
    s_banner: Seq<Plugin>,
    css_actual: Seq<Plugin>,
    regs: Seq<Plugin>,
)
    requires
        regs == s_html + css_actual + s_rest + s_banner,
        css_actual.len() == s_css.len(),
        forall|i: int| 0 <= i < s_css.len() ==> plugin_like(s_css[i], css_actual[i]),
    ensures
        regs.len() == (s_html + s_css + (s_rest + s_banner)).len(),
        forall|i: int|
            0 <= i < (s_html + s_css + (s_rest + s_banner)).len() ==> plugin_like(
                (s_html + s_css + (s_rest + s_banner))[i],
                regs[i],
            ),
{
    let whole = s_html + s_css + (s_rest + s_banner);
    assert forall|i: int| 0 <= i < whole.len() implies plugin_like(whole[i], regs[i]) by {
        if i < s_html.len() {
            assert(whole[i] == s_html[i]);
            assert(regs[i] == s_html[i]);
            lemma_plugin_like_refl(whole[i]);
        } else if i < s_html.len() + s_css.len() {
            assert(whole[i] == s_css[i - s_html.len()]);
            assert(regs[i] == css_actual[i - s_html.len()]);
        } else {
            assert(whole[i] == (s_rest + s_banner)[i - s_html.len() - s_css.len()]);
            assert(regs[i] == (s_rest + s_banner)[i - s_html.len() - s_css.len()]);
            lemma_plugin_like_refl(whole[i]);
        }
    }
}

/// `after` extends `before` by exactly the plugins that `b` registers:
/// same prefix, one new entry per registered plugin, each matching the
/// registered one up to the vector holding the CSS targets.
pub open spec fn spec_plugins_registered(
    b: RawBuiltins,
    before: Seq<Plugin>,
    after: Seq<Plugin>,
) -> bool {
    &&& after.len() == before.len() + spec_registered_plugins(b).len()
    &&& (forall|i: int| 0 <= i < before.len() ==> after[i] == before[i])
    &&& (forall|i: int|
        0 <= i < spec_registered_plugins(b).len() ==> plugin_like(
            spec_registered_plugins(b)[i],
            after[before.len() + i],
        ))
}

impl RawBuiltins {
    /// Register the builtin plugins this configuration asks for, in order,
    /// and produce the typed builtin options. The plugins are registered
    /// even when a later conversion fails, as registration happens first.
    #[verifier::rlimit(100)]
    pub fn apply(self, plugins: &mut Vec<Plugin>) -> (r: Result<Builtins, CoreError>)
        ensures
            spec_plugins_registered(self, old(plugins)@, final(plugins)@),
            r is Ok <==> spec_builtins_err(self) is None,
            r is Ok ==> spec_builtins_ok(self, r->Ok_0),
            r is Err ==> Some(r->Err_0) == spec_builtins_err(self),
    {
        let ghost selfg = self;
        let ghost p0 = plugins@;
        let ghost whole = spec_registered_plugins(self);
        let ghost s_html: Seq<Plugin> = spec_html_plugins(self);
        let ghost s_css: Seq<Plugin> = spec_css_plugins(self);
        let ghost s_rest: Seq<Plugin> = spec_middle_plugins(self);
        let ghost s_banner: Seq<Plugin> = spec_banner_plugins(self);
        let RawBuiltins {
            html,
            css,
            postcss,
            minify_options,
            preset_env,
            define,
            provide,
            tree_shaking,
            progress,
            react,
            decorator,
            no_emit_assets,
            emotion,
            dev_friendly_split_chunks,
            copy,
            banner,
            plugin_import,
            relay,
            code_generation,
        } = self;
        let preset_env_targets: Option<Vec<String>> = match &preset_env {
            Some(p) => Some(clone_string_vec(&p.targets)),
            None => None,
        };
        let ghost cloned_targets = preset_env_targets;
        let mut regs: Vec<Plugin> = register_builtin_plugins(
            html,
            css,
            postcss,
            preset_env_targets,
            progress,
            dev_friendly_split_chunks,
            copy,
            banner,
        );
        proof {
            let css_actual = spec_css_seq(selfg.css, selfg.postcss, cloned_targets);
            assert(regs@ == s_html + css_actual + s_rest + s_banner);
            assert forall|i: int| 0 <= i < s_css.len() implies plugin_like(
                s_css[i],
                css_actual[i],
            ) by {
                lemma_plugin_like_refl(s_css[i]);
            }
            lemma_plugins_pointwise(s_html, s_css, s_rest, s_banner, css_actual, regs@);
        }
        let ghost before = plugins@;
        let ghost regs_all = regs@;
        plugins.append(&mut regs);
        proof {
            assert(plugins@ == before + regs_all);
            assert(spec_plugins_registered(self, before, plugins@));
        }
        let minify = match minify_options {
            Some(m) => match Minification::try_from(m) {
                Ok(mo) => Some(mo),
                Err(e) => {
                    proof {
                        assert(selfg.minify_options matches Some(m0) && spec_minification_err(m0)
                            == Some(e));
                        assert(Some(e) == spec_builtins_err(selfg));
                    }
                    return Err(e);
                }
            },
            None => None,
        };
        let emotion_value = match emotion {
            Some(s) => match parse_json(s.as_str()) {
                Ok(v) => Some(v),
                Err(e) => {
                    return Err(e);
                }
            },
            None => None,
        };
        Ok(Builtins {
            minify_options: minify,
            preset_env: match preset_env {
                Some(p) => Some(PresetEnv::from(p)),
                None => None,
            },
            define,
            provide,
            tree_shaking: TreeShaking::from_text(tree_shaking.as_str()),
            react,
            decorator,
            no_emit_assets,
            dev_friendly_split_chunks,
            emotion: emotion_value,
            plugin_import,
            relay,
            code_generation: match code_generation {
                Some(c) => Some(CodeGeneration::from(c)),
                None => None,
            },
        })
    }
}

/// Push the builtin plugins these options ask for, in order: HTML pages,
/// CSS, progress, dev-friendly split chunks, copy, banners.
#[verifier::rlimit(100)]
fn register_builtin_plugins(
    html: Option<Vec<HtmlPluginConfig>>,
    css: Option<CssPluginConfig>,
    postcss: Option<PostCssConfig>,
    preset_env_targets: Option<Vec<String>>,
    progress: Option<ProgressPluginConfig>,
    dev_friendly_split_chunks: bool,
    copy: Option<CopyConfig>,
    banner: Option<Vec<BannerConfig>>,
) -> (regs: Vec<Plugin>)
    ensures
        regs@ == spec_html_seq(html) + spec_css_seq(css, postcss, preset_env_targets)
            + spec_middle_seq(progress, dev_friendly_split_chunks, copy) + spec_banner_seq(banner),
{
    let ghost s_html = spec_html_seq(html);
    let ghost s_css = spec_css_seq(css, postcss, preset_env_targets);
    let ghost s_rest = spec_middle_seq(progress, dev_friendly_split_chunks, copy);
    let ghost s_banner = spec_banner_seq(banner);
    let mut regs: Vec<Plugin> = Vec::new();
    match html {
        Some(mut hs) => {
            let ghost horig = hs@;
            let total = hs.len();
            let mut k: usize = 0;
            while k < total
                invariant
                    total == horig.len(),
                    k <= total,
                    hs@ == horig.subrange(k as int, horig.len() as int),
                    s_html == horig.map_values(|h2: HtmlPluginConfig| Plugin::Html(h2)),
                    regs@ == s_html.subrange(0, k as int),
                decreases total - k,
            {
                let h = hs.remove(0);
                proof {
                    assert(h == horig[k as int]);
                    assert(hs@ =~= horig.subrange(k as int + 1, horig.len() as int));
                }
                regs.push(Plugin::Html(h));
                proof {
                    assert(regs@ =~= s_html.subrange(0, k as int + 1));
                }
                k += 1;
            }
            proof {
                assert(s_html.subrange(0, total as int) =~= s_html);
            }
        }
        None => {}
    }
    proof {
        assert(regs@ == s_html);
    }
    match &css {
        Some(c) => {
            let resolved = CssResolvedConfig {
                targets: preset_env_targets,
                postcss: match postcss {
                    Some(p) => p,
                    None => PostCssConfig { pxtorem: false },
                },
                modules: c.modules,
            };
            regs.push(Plugin::Css(resolved));
        }
        None => {}
    }
    let ghost r_css = regs@;
    proof {
        assert(r_css =~= s_html + s_css);
    }
    match progress {
        Some(p) => regs.push(Plugin::Progress(p)),
        None => {}
    }
    if dev_friendly_split_chunks {
        regs.push(Plugin::DevFriendlySplitChunks);
    }
    match copy {
        Some(c) => regs.push(Plugin::Copy(c)),
        None => {}
    }
    let ghost r_precopy = regs@;
    proof {
        assert(r_precopy =~= r_css + s_rest);
    }
    match banner {
        Some(mut bs) => {
            let ghost borig = bs@;
            let total = bs.len();
            let mut k: usize = 0;
            while k < total
                invariant
                    total == borig.len(),
                    k <= total,
                    bs@ == borig.subrange(k as int, borig.len() as int),
                    s_banner == borig.map_values(|c2: BannerConfig| Plugin::Banner(c2)),
                    regs@ == r_precopy + s_banner.subrange(0, k as int),
                decreases total - k,
            {
                let b = bs.remove(0);
                proof {
                    assert(b == borig[k as int]);
                    assert(bs@ =~= borig.subrange(k as int + 1, borig.len() as int));
                }
                regs.push(Plugin::Banner(b));
                proof {
                    assert(s_banner.subrange(0, k as int + 1) =~= s_banner.subrange(
                        0,
                        k as int,
                    ).push(Plugin::Banner(borig[k as int])));
                    assert(regs@ =~= r_precopy + s_banner.subrange(0, k as int + 1));
                }
                k += 1;
            }
            proof {
                assert(s_banner.subrange(0, total as int) =~= s_banner);
            }
        }
        None => {
            proof {
                assert(s_banner =~= Seq::<Plugin>::empty());
            }
        }
    }
    proof {
        assert(regs@ =~= r_precopy + s_banner);
        assert(regs@ =~= s_html + s_css + s_rest + s_banner);
    }
    regs
}

/// An element-wise copy of a list of strings.
pub(crate) fn clone_string_vec(v: &Vec<String>) -> (r: Vec<String>)
    ensures
        r@ == v@,
{
    let mut out: Vec<String> = Vec::new();
    let n = v.len();
    let mut i: usize = 0;
    while i < n
        invariant
            i <= n,
            n == v@.len(),
            out@ == v@.subrange(0, i as int),
        decreases n - i,
    {
        out.push(v[i].clone());
        proof {
            assert(out@ =~= v@.subrange(0, i as int + 1));
        }
        i += 1;
    }
    proof {
        assert(out@ =~= v@);
    }
    out
}


} // verus!
