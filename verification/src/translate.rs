//! The translation services by name: the built-in backends and the plugins.

use vstd::prelude::*;
use crate::json::{Json, JsonView, lookup};
use crate::plugin::{PluginManager, PluginTranslateService, create_translate_adapters, plugin_view};
use crate::registry::{Named, Registry};
use crate::services::ServiceError;
use crate::translators::{
    GoogleTranslate, BingTranslate, DeepLTranslate, OpenAITranslate, BaiduTranslate, YoudaoTranslate,
    LingvaTranslate,
};

verus! {

/// A translation service: a built-in backend or a plugin.
pub enum TranslateService {
    Google(GoogleTranslate),
    Bing(BingTranslate),
    DeepL(DeepLTranslate),
    OpenAI(OpenAITranslate),
    Baidu(BaiduTranslate),
    Youdao(YoudaoTranslate),
    Lingva(LingvaTranslate),
    Plugin(PluginTranslateService),
}

impl Named for TranslateService {
    open spec fn spec_name(&self) -> Seq<char> {
        match self {
            TranslateService::Google(_) => "google"@,
            TranslateService::Bing(_) => "bing"@,
            TranslateService::DeepL(_) => "deepl"@,
            TranslateService::OpenAI(_) => "openai"@,
            TranslateService::Baidu(_) => "baidu"@,
            TranslateService::Youdao(_) => "youdao"@,
            TranslateService::Lingva(_) => "lingva"@,
            TranslateService::Plugin(p) => p.plugin.info.name@,
        }
    }

    fn name(&self) -> (r: String) {
        match self {
            TranslateService::Google(s) => s.name().to_string(),
            TranslateService::Bing(s) => s.name().to_string(),
            TranslateService::DeepL(s) => s.name().to_string(),
            TranslateService::OpenAI(s) => s.name().to_string(),
            TranslateService::Baidu(s) => s.name().to_string(),
            TranslateService::Youdao(s) => s.name().to_string(),
            TranslateService::Lingva(s) => s.name().to_string(),
            TranslateService::Plugin(p) => p.name(),
        }
    }
}

impl TranslateService {
    /// The settings a new instance of the service starts with.
    pub open spec fn defaults(&self) -> JsonView {
        match self {
            TranslateService::Google(_) => JsonView::Object(
                seq![("custom_url"@, JsonView::Str("https://translate.google.com"@))],
            ),
            TranslateService::Bing(_) => JsonView::Object(Seq::empty()),
            TranslateService::DeepL(_) => JsonView::Object(
                seq![
                    ("auth_key"@, JsonView::Str(Seq::empty())),
                    ("custom_url"@, JsonView::Str(Seq::empty())),
                    ("type"@, JsonView::Str("free"@)),
                ],
            ),
            TranslateService::OpenAI(_) => JsonView::Object(
                seq![
                    ("api_format"@, JsonView::Str("openai_compatible"@)),
                    ("api_key"@, JsonView::Str(Seq::empty())),
                    ("model"@, JsonView::Str("gpt-3.5-turbo"@)),
                    ("prompt"@, JsonView::Array(Seq::empty())),
                    ("request_arguments"@, JsonView::Object(Seq::empty())),
                    ("request_url"@, JsonView::Str("https://api.openai.com/v1/chat/completions"@)),
                ],
            ),
            TranslateService::Baidu(_) => JsonView::Object(
                seq![("appid"@, JsonView::Str(Seq::empty())), ("secret"@, JsonView::Str(Seq::empty()))],
            ),
            TranslateService::Youdao(_) => JsonView::Object(
                seq![("appkey"@, JsonView::Str(Seq::empty())), ("key"@, JsonView::Str(Seq::empty()))],
            ),
            TranslateService::Lingva(_) => JsonView::Object(
                seq![("custom_url"@, JsonView::Str("https://lingva.pot-app.com"@))],
            ),
            TranslateService::Plugin(_) => JsonView::Null,
        }
    }

    pub fn default_config(&self) -> (r: Json)
        ensures
            r@ == self.defaults(),
    {
        match self {
            TranslateService::Google(s) => s.default_config(),
            TranslateService::Bing(s) => s.default_config(),
            TranslateService::DeepL(s) => s.default_config(),
            TranslateService::OpenAI(s) => s.default_config(),
            TranslateService::Baidu(s) => s.default_config(),
            TranslateService::Youdao(s) => s.default_config(),
            TranslateService::Lingva(s) => s.default_config(),
            TranslateService::Plugin(p) => p.default_config(),
        }
    }
}

/// The translation services by name.
pub type TranslateRegistry = Registry<TranslateService>;

/// The names of the built-in translation services, in registration order.
pub open spec fn builtin_translators() -> Seq<Seq<char>> {
    seq!["google"@, "bing"@, "deepl"@, "openai"@, "baidu"@, "youdao"@, "lingva"@]
}

proof fn lemma_register_new(es: Seq<(Seq<char>, TranslateService)>, k: Seq<char>, v: TranslateService)
    requires
        !crate::json::entry_keys(es).contains(k),
    ensures
        crate::json::entry_keys(crate::json::entries_insert(es, k, v)) == crate::json::entry_keys(es).push(k),
{
    assert forall|j: int| 0 <= j < es.len() implies es[j].0 != k by {
        assert(crate::json::entry_keys(es)[j] == es[j].0);
    }
    crate::json::lemma_first_index_none(es, k);
    assert(crate::json::entry_keys(es.push((k, v))) =~= crate::json::entry_keys(es).push(k));
}

/// The registry with the built-in backends.
pub fn create_registry() -> (r: TranslateRegistry)
    ensures
        crate::json::entry_keys(r.entries()) == builtin_translators(),
{
    proof {
        reveal_strlit("google");
        reveal_strlit("bing");
        reveal_strlit("deepl");
        reveal_strlit("openai");
        reveal_strlit("baidu");
        reveal_strlit("youdao");
        reveal_strlit("lingva");
    }
    let mut r: TranslateRegistry = Registry::new();
    assert(crate::json::entry_keys(r.entries()) =~= Seq::<Seq<char>>::empty());
    let ghost e_google = r.entries();
    r.register(TranslateService::Google(GoogleTranslate));
    proof {
        lemma_register_new(e_google, "google"@, TranslateService::Google(GoogleTranslate));
    }
    assert(crate::json::entry_keys(r.entries()) =~= seq!["google"@]);
    let ghost e_bing = r.entries();
    r.register(TranslateService::Bing(BingTranslate));
    proof {
        assert(!seq!["google"@].contains("bing"@)) by {
            assert("google"@.len() != "bing"@.len());
        }
        lemma_register_new(e_bing, "bing"@, TranslateService::Bing(BingTranslate));
    }
    assert(crate::json::entry_keys(r.entries()) =~= seq!["google"@, "bing"@]);
    let ghost e_deepl = r.entries();
    r.register(TranslateService::DeepL(DeepLTranslate));
    proof {
        assert(!seq!["google"@, "bing"@].contains("deepl"@)) by {
            assert("google"@.len() != "deepl"@.len());
            assert("bing"@.len() != "deepl"@.len());
        }
        lemma_register_new(e_deepl, "deepl"@, TranslateService::DeepL(DeepLTranslate));
    }
    assert(crate::json::entry_keys(r.entries()) =~= seq!["google"@, "bing"@, "deepl"@]);
    let ghost e_openai = r.entries();
    r.register(TranslateService::OpenAI(OpenAITranslate));
    proof {
        assert(!seq!["google"@, "bing"@, "deepl"@].contains("openai"@)) by {
            assert("google"@[0] != "openai"@[0]);
            assert("bing"@.len() != "openai"@.len());
            assert("deepl"@.len() != "openai"@.len());
        }
        lemma_register_new(e_openai, "openai"@, TranslateService::OpenAI(OpenAITranslate));
    }
    assert(crate::json::entry_keys(r.entries()) =~= seq!["google"@, "bing"@, "deepl"@, "openai"@]);
    let ghost e_baidu = r.entries();
    r.register(TranslateService::Baidu(BaiduTranslate));
    proof {
        assert(!seq!["google"@, "bing"@, "deepl"@, "openai"@].contains("baidu"@)) by {
            assert("google"@.len() != "baidu"@.len());
            assert("bing"@.len() != "baidu"@.len());
            assert("deepl"@[0] != "baidu"@[0]);
            assert("openai"@.len() != "baidu"@.len());
        }
        lemma_register_new(e_baidu, "baidu"@, TranslateService::Baidu(BaiduTranslate));
    }
    assert(crate::json::entry_keys(r.entries()) =~= seq!["google"@, "bing"@, "deepl"@, "openai"@, "baidu"@]);
    let ghost e_youdao = r.entries();
    r.register(TranslateService::Youdao(YoudaoTranslate));
    proof {
        assert(!seq!["google"@, "bing"@, "deepl"@, "openai"@, "baidu"@].contains("youdao"@)) by {
            assert("google"@[0] != "youdao"@[0]);
            assert("bing"@.len() != "youdao"@.len());
            assert("deepl"@.len() != "youdao"@.len());
            assert("openai"@[0] != "youdao"@[0]);
            assert("baidu"@.len() != "youdao"@.len());
        }
        lemma_register_new(e_youdao, "youdao"@, TranslateService::Youdao(YoudaoTranslate));
    }
    assert(crate::json::entry_keys(r.entries()) =~= seq!["google"@, "bing"@, "deepl"@, "openai"@, "baidu"@, "youdao"@]);
    let ghost e_lingva = r.entries();
    r.register(TranslateService::Lingva(LingvaTranslate));
    proof {
        assert(!seq!["google"@, "bing"@, "deepl"@, "openai"@, "baidu"@, "youdao"@].contains("lingva"@)) by {
            assert("google"@[0] != "lingva"@[0]);
            assert("bing"@.len() != "lingva"@.len());
            assert("deepl"@.len() != "lingva"@.len());
            assert("openai"@[0] != "lingva"@[0]);
            assert("baidu"@.len() != "lingva"@.len());
            assert("youdao"@[0] != "lingva"@[0]);
        }
        lemma_register_new(e_lingva, "lingva"@, TranslateService::Lingva(LingvaTranslate));
    }
    assert(crate::json::entry_keys(r.entries()) =~= seq!["google"@, "bing"@, "deepl"@, "openai"@, "baidu"@, "youdao"@, "lingva"@]);
    assert(crate::json::entry_keys(r.entries()) =~= builtin_translators());
    r
}

/// The registry with the built-in backends and, after them, a service for each
/// translate plugin (a plugin named like a service replaces it).
pub fn create_registry_with_plugins(manager: &PluginManager) -> (r: TranslateRegistry)
    ensures
        forall|n: Seq<char>|
            builtin_translators().contains(n) ==> crate::json::entry_keys(r.entries()).contains(n),
{
    let mut r = create_registry();
    let adapters = create_translate_adapters(manager);
    let mut adapters = adapters;
    let n = adapters.len();
    let mut i: usize = 0;
    while i < n
        invariant
            i <= n,
            adapters@.len() == n - i,
            forall|k: Seq<char>|
                builtin_translators().contains(k) ==> crate::json::entry_keys(r.entries()).contains(k),
        decreases n - i,
    {
        let a = adapters.pop().unwrap();
        let ghost before = r.entries();
        let ghost sv = TranslateService::Plugin(a);
        r.register(TranslateService::Plugin(a));
        proof {
            assert forall|k: Seq<char>| builtin_translators().contains(k) implies crate::json::entry_keys(r.entries()).contains(k) by {
                let keys0 = crate::json::entry_keys(before);
                assert(keys0.contains(k));
                let j = choose|j: int| 0 <= j < keys0.len() && keys0[j] == k;
                crate::json::lemma_first_index(before, sv.spec_name());
                match crate::json::first_index(before, sv.spec_name()) {
                    Some(x) => {
                        let ns = before.update(x, (sv.spec_name(), sv));
                        if j == x {
                            assert(crate::json::entry_keys(ns)[j] == k);
                        } else {
                            assert(crate::json::entry_keys(ns)[j] == k);
                        }
                    },
                    None => {
                        let ns = before.push((sv.spec_name(), sv));
                        assert(crate::json::entry_keys(ns)[j] == k);
                    },
                }
            }
        }
        i = i + 1;
    }
    r
}

/// The service to translate with, or the error for a name no service has.
pub fn translation_service<'a>(reg: &'a TranslateRegistry, name: &str) -> (r: Result<&'a TranslateService, ServiceError>)
    ensures
        match lookup(reg.entries(), name@) {
            Some(s) => r matches Ok(x) && *x == s,
            None => r matches Err(e) && e.service@ == name@ && e.message@ == "Service not found"@,
        },
{
    match reg.get(name) {
        Some(s) => Ok(s),
        None => Err(ServiceError::new(name, "Service not found")),
    }
}

} // verus!
