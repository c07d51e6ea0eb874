//! Translations of interface texts by locale and key, with a current locale.

use vstd::prelude::*;
use crate::error::AppError;
use crate::keyed::{has_key, lemma_map_of_absent, lemma_map_of_empty, lemma_map_of_index, lemma_map_of_push, lemma_map_of_update, map_of, unique_keys};
use crate::text::{concat3, str_eq, str_to_string, string_views};

verus! {

/// The current locale and the locales that have translations.
#[derive(Debug)]
pub struct I18nConfig {
    pub current_locale: String,
    pub available_locales: Vec<String>,
}

/// The translations the manager starts with: Chinese and English texts of the
/// interface.
pub open spec fn initial_translations() -> Map<(Seq<char>, Seq<char>), Seq<char>> {
    Map::<(Seq<char>, Seq<char>), Seq<char>>::empty()
        .insert(("zh"@, "app.title"@), "Mahakala Agent"@)
        .insert(("zh"@, "nav.chat"@), "对话"@)
        .insert(("zh"@, "nav.memory"@), "记忆"@)
        .insert(("zh"@, "nav.skills"@), "技能"@)
        .insert(("zh"@, "nav.tools"@), "工具"@)
        .insert(("zh"@, "nav.plugins"@), "插件"@)
        .insert(("zh"@, "nav.messages"@), "消息"@)
        .insert(("zh"@, "nav.platforms"@), "平台"@)
        .insert(("zh"@, "nav.cron"@), "定时任务"@)
        .insert(("zh"@, "nav.settings"@), "设置"@)
        .insert(("zh"@, "common.save"@), "保存"@)
        .insert(("zh"@, "common.cancel"@), "取消"@)
        .insert(("zh"@, "common.delete"@), "删除"@)
        .insert(("zh"@, "common.edit"@), "编辑"@)
        .insert(("zh"@, "common.add"@), "添加"@)
        .insert(("zh"@, "common.search"@), "搜索"@)
        .insert(("zh"@, "common.loading"@), "加载中..."@)
        .insert(("zh"@, "common.success"@), "成功"@)
        .insert(("zh"@, "common.error"@), "错误"@)
        .insert(("zh"@, "chat.placeholder"@), "输入消息..."@)
        .insert(("zh"@, "chat.send"@), "发送"@)
        .insert(("zh"@, "chat.thinking"@), "思考中..."@)
        .insert(("zh"@, "memory.facts"@), "事实"@)
        .insert(("zh"@, "memory.entities"@), "实体"@)
        .insert(("zh"@, "memory.dimensions"@), "维度"@)
        .insert(("zh"@, "settings.model"@), "模型设置"@)
        .insert(("zh"@, "settings.theme"@), "主题"@)
        .insert(("zh"@, "settings.language"@), "语言"@)
        .insert(("zh"@, "settings.api_key"@), "API密钥"@)
        .insert(("en"@, "app.title"@), "Mahakala Agent"@)
        .insert(("en"@, "nav.chat"@), "Chat"@)
        .insert(("en"@, "nav.memory"@), "Memory"@)
        .insert(("en"@, "nav.skills"@), "Skills"@)
        .insert(("en"@, "nav.tools"@), "Tools"@)
        .insert(("en"@, "nav.plugins"@), "Plugins"@)
        .insert(("en"@, "nav.messages"@), "Messages"@)
        .insert(("en"@, "nav.platforms"@), "Platforms"@)
        .insert(("en"@, "nav.cron"@), "Cron Jobs"@)
        .insert(("en"@, "nav.settings"@), "Settings"@)
        .insert(("en"@, "common.save"@), "Save"@)
        .insert(("en"@, "common.cancel"@), "Cancel"@)
        .insert(("en"@, "common.delete"@), "Delete"@)
        .insert(("en"@, "common.edit"@), "Edit"@)
        .insert(("en"@, "common.add"@), "Add"@)
        .insert(("en"@, "common.search"@), "Search"@)
        .insert(("en"@, "common.loading"@), "Loading..."@)
        .insert(("en"@, "common.success"@), "Success"@)
        .insert(("en"@, "common.error"@), "Error"@)
        .insert(("en"@, "chat.placeholder"@), "Type a message..."@)
        .insert(("en"@, "chat.send"@), "Send"@)
        .insert(("en"@, "chat.thinking"@), "Thinking..."@)
        .insert(("en"@, "memory.facts"@), "Facts"@)
        .insert(("en"@, "memory.entities"@), "Entities"@)
        .insert(("en"@, "memory.dimensions"@), "Dimensions"@)
        .insert(("en"@, "settings.model"@), "Model Settings"@)
        .insert(("en"@, "settings.theme"@), "Theme"@)
        .insert(("en"@, "settings.language"@), "Language"@)
        .insert(("en"@, "settings.api_key"@), "API Key"@)
}

/// A translation entry: locale, key and text.
pub open spec fn entry_key(e: (String, String, String)) -> (Seq<char>, Seq<char>) {
    (e.0@, e.1@)
}

/// Translations of interface texts, and the locale in use.
pub struct I18nManager {
    translations: Vec<(String, String, String)>,
    current_locale: String,
}

impl I18nManager {
    pub closed spec fn entries(&self) -> Seq<((Seq<char>, Seq<char>), Seq<char>)> {
        self.translations@.map_values(|e: (String, String, String)| ((e.0@, e.1@), e.2@))
    }

    /// The texts, by locale and key.
    pub closed spec fn translations_view(&self) -> Map<(Seq<char>, Seq<char>), Seq<char>> {
        map_of(self.entries())
    }

    /// The locale in use.
    pub closed spec fn locale_view(&self) -> Seq<char> {
        self.current_locale@
    }

    /// Whether some text is translated into `locale`.
    pub open spec fn has_locale(&self, locale: Seq<char>) -> bool {
        exists|key: Seq<char>| #[trigger] self.translations_view().dom().contains((locale, key))
    }

    /// Each locale and key has one text.
    pub closed spec fn wf(&self) -> bool {
        unique_keys(self.entries())
    }

    fn position(&self, locale: &str, key: &str) -> (r: Option<usize>)
        requires
            self.wf(),
        ensures
            match r {
                Some(i) => i < self.translations@.len() && self.translations@[i as int].0@ == locale@
                    && self.translations@[i as int].1@ == key@
                    && self.translations_view().dom().contains((locale@, key@))
                    && self.translations_view()[(locale@, key@)] == self.translations@[i as int].2@,
                None => !self.translations_view().dom().contains((locale@, key@)),
            },
    {
        let mut i: usize = 0;
        while i < self.translations.len()
            invariant
                i <= self.translations@.len(),
                self.wf(),
                forall|j: int| 0 <= j < i ==> #[trigger] entry_key(self.translations@[j]) != (locale@, key@),
            decreases self.translations.len() - i,
        {
            if str_eq(self.translations[i].0.as_str(), locale) && str_eq(self.translations[i].1.as_str(), key) {
                proof {
                    lemma_map_of_index(self.entries(), i as int);
                }
                return Some(i);
            }
            i = i + 1;
        }
        proof {
            assert forall|j: int| 0 <= j < self.entries().len() implies #[trigger] self.entries()[j].0 != (locale@, key@) by {
                assert(self.entries()[j].0 == entry_key(self.translations@[j]));
            }
            lemma_map_of_absent(self.entries(), (locale@, key@));
        }
        None
    }

    fn put(&mut self, locale: &str, key: &str, value: &str)
        requires
            old(self).wf(),
        ensures
            final(self).wf(),
            final(self).translations_view() == old(self).translations_view().insert((locale@, key@), value@),
            final(self).locale_view() == old(self).locale_view(),
    {
        let ghost es = self.entries();
        let e = (str_to_string(locale), str_to_string(key), str_to_string(value));
        match self.position(locale, key) {
            Some(i) => {
                self.translations.set(i, e);
                proof {
                    assert(self.entries() =~= es.update(i as int, (es[i as int].0, value@)));
                    lemma_map_of_update(es, i as int, value@);
                }
            },
            None => {
                self.translations.push(e);
                proof {
                    assert(self.entries() =~= es.push(((locale@, key@), value@)));
                    lemma_map_of_push(es, (locale@, key@), value@);
                }
            },
        }
    }

    /// A manager with the initial Chinese and English texts, using Chinese.
    pub fn new() -> (r: Self)
        ensures
            r.wf(),
            r.translations_view() == initial_translations(),
            r.locale_view() == "zh"@,
    {
        let mut r = I18nManager { translations: Vec::new(), current_locale: str_to_string("zh") };
        proof {
            lemma_map_of_empty(r.entries());
        }
        r.fill_initial();
        r
    }

    fn fill_initial(&mut self)
        requires
            old(self).wf(),
            old(self).translations_view() == Map::<(Seq<char>, Seq<char>), Seq<char>>::empty(),
        ensures
            final(self).wf(),
            final(self).translations_view() == initial_translations(),
            final(self).locale_view() == old(self).locale_view(),
    {
        self.put("zh", "app.title", "Mahakala Agent");
        self.put("zh", "nav.chat", "对话");
        self.put("zh", "nav.memory", "记忆");
        self.put("zh", "nav.skills", "技能");
        self.put("zh", "nav.tools", "工具");
        self.put("zh", "nav.plugins", "插件");
        self.put("zh", "nav.messages", "消息");
        self.put("zh", "nav.platforms", "平台");
        self.put("zh", "nav.cron", "定时任务");
        self.put("zh", "nav.settings", "设置");
        self.put("zh", "common.save", "保存");
        self.put("zh", "common.cancel", "取消");
        self.put("zh", "common.delete", "删除");
        self.put("zh", "common.edit", "编辑");
        self.put("zh", "common.add", "添加");
        self.put("zh", "common.search", "搜索");
        self.put("zh", "common.loading", "加载中...");
        self.put("zh", "common.success", "成功");
        self.put("zh", "common.error", "错误");
        self.put("zh", "chat.placeholder", "输入消息...");
        self.put("zh", "chat.send", "发送");
        self.put("zh", "chat.thinking", "思考中...");
        self.put("zh", "memory.facts", "事实");
        self.put("zh", "memory.entities", "实体");
        self.put("zh", "memory.dimensions", "维度");
        self.put("zh", "settings.model", "模型设置");
        self.put("zh", "settings.theme", "主题");
        self.put("zh", "settings.language", "语言");
        self.put("zh", "settings.api_key", "API密钥");
        self.put("en", "app.title", "Mahakala Agent");
        self.put("en", "nav.chat", "Chat");
        self.put("en", "nav.memory", "Memory");
        self.put("en", "nav.skills", "Skills");
        self.put("en", "nav.tools", "Tools");
        self.put("en", "nav.plugins", "Plugins");
        self.put("en", "nav.messages", "Messages");
        self.put("en", "nav.platforms", "Platforms");
        self.put("en", "nav.cron", "Cron Jobs");
        self.put("en", "nav.settings", "Settings");
        self.put("en", "common.save", "Save");
        self.put("en", "common.cancel", "Cancel");
        self.put("en", "common.delete", "Delete");
        self.put("en", "common.edit", "Edit");
        self.put("en", "common.add", "Add");
        self.put("en", "common.search", "Search");
        self.put("en", "common.loading", "Loading...");
        self.put("en", "common.success", "Success");
        self.put("en", "common.error", "Error");
        self.put("en", "chat.placeholder", "Type a message...");
        self.put("en", "chat.send", "Send");
        self.put("en", "chat.thinking", "Thinking...");
        self.put("en", "memory.facts", "Facts");
        self.put("en", "memory.entities", "Entities");
        self.put("en", "memory.dimensions", "Dimensions");
        self.put("en", "settings.model", "Model Settings");
        self.put("en", "settings.theme", "Theme");
        self.put("en", "settings.language", "Language");
        self.put("en", "settings.api_key", "API Key");
    }

    fn locale_known(&self, locale: &str) -> (b: bool)
        requires
            self.wf(),
        ensures
            b == self.has_locale(locale@),
    {
        let mut i: usize = 0;
        while i < self.translations.len()
            invariant
                i <= self.translations@.len(),
                self.wf(),
                forall|j: int| 0 <= j < i ==> #[trigger] self.translations@[j].0@ != locale@,
            decreases self.translations.len() - i,
        {
            if str_eq(self.translations[i].0.as_str(), locale) {
                proof {
                    lemma_map_of_index(self.entries(), i as int);
                    assert(self.translations_view().dom().contains((locale@, self.translations@[i as int].1@)));
                }
                return true;
            }
            i = i + 1;
        }
        proof {
            if self.has_locale(locale@) {
                let key = choose|key: Seq<char>| #[trigger] self.translations_view().dom().contains((locale@, key));
                let j = choose|j: int| 0 <= j < self.entries().len() && self.entries()[j].0 == (locale@, key);
                assert(self.entries()[j].0 == entry_key(self.translations@[j]));
            }
        }
        false
    }

    /// Uses `locale` from now on; `InvalidInput` when no text is translated into it.
    pub fn set_locale(&mut self, locale: &str) -> (r: Result<(), AppError>)
        requires
            old(self).wf(),
        ensures
            final(self).wf(),
            final(self).translations_view() == old(self).translations_view(),
            r is Ok <==> old(self).has_locale(locale@),
            match r {
                Ok(_) => final(self).locale_view() == locale@,
                Err(e) => e is InvalidInput && e.message() == "Locale "@ + locale@ + " not supported"@
                    && final(self).locale_view() == old(self).locale_view(),
            },
    {
        if !self.locale_known(locale) {
            return Err(AppError::InvalidInput(concat3("Locale ", locale, " not supported")));
        }
        self.current_locale = str_to_string(locale);
        Ok(())
    }

    /// The locale in use.
    pub fn get_locale(&self) -> (r: String)
        ensures
            r@ == self.locale_view(),
    {
        self.current_locale.clone()
    }

    /// The text of `key` in the locale in use; the key itself when it has none.
    pub fn t(&self, key: &str) -> (r: String)
        requires
            self.wf(),
        ensures
            r@ == if self.translations_view().dom().contains((self.locale_view(), key@)) {
                self.translations_view()[(self.locale_view(), key@)]
            } else {
                key@
            },
    {
        match self.position(self.current_locale.as_str(), key) {
            Some(i) => self.translations[i].2.clone(),
            None => str_to_string(key),
        }
    }

    /// Sets the text of `key` in `locale`.
    pub fn add_translation(&mut self, locale: &str, key: &str, value: &str)
        requires
            old(self).wf(),
        ensures
            final(self).wf(),
            final(self).translations_view() == old(self).translations_view().insert((locale@, key@), value@),
            final(self).locale_view() == old(self).locale_view(),
    {
        self.put(locale, key, value);
    }

    /// The locale in use and the locales that have texts, each once.
    pub fn get_config(&self) -> (r: I18nConfig)
        requires
            self.wf(),
        ensures
            r.current_locale@ == self.locale_view(),
            string_views(r.available_locales@).no_duplicates(),
            forall|l: Seq<char>| #[trigger] string_views(r.available_locales@).contains(l) <==> self.has_locale(l),
    {
        let mut locales: Vec<String> = Vec::new();
        let ghost ls = self.translations@.map_values(|e: (String, String, String)| e.0@);
        let mut i: usize = 0;
        while i < self.translations.len()
            invariant
                i <= self.translations@.len(),
                ls == self.translations@.map_values(|e: (String, String, String)| e.0@),
                string_views(locales@) == ls.take(i as int),
            decreases self.translations.len() - i,
        {
            let ghost before = string_views(locales@);
            locales.push(self.translations[i].0.clone());
            proof {
                assert(string_views(locales@) =~= before.push(ls[i as int]));
                assert(ls.take(i + 1) =~= ls.take(i as int).push(ls[i as int]));
            }
            i = i + 1;
        }
        assert(ls.take(ls.len() as int) =~= ls);
        let r = crate::text::distinct_strings(&locales);
        proof {
            assert forall|l: Seq<char>| #[trigger] string_views(r@).contains(l) <==> self.has_locale(l) by {
                assert(string_views(r@).contains(l) == string_views(r@).to_set().contains(l));
                assert(ls.contains(l) == ls.to_set().contains(l));
                if ls.contains(l) {
                    let j = choose|j: int| 0 <= j < ls.len() && ls[j] == l;
                    lemma_map_of_index(self.entries(), j);
                    assert(self.translations_view().dom().contains((l, self.translations@[j].1@)));
                }
                if self.has_locale(l) {
                    let key = choose|key: Seq<char>| #[trigger] self.translations_view().dom().contains((l, key));
                    let j = choose|j: int| 0 <= j < self.entries().len() && self.entries()[j].0 == (l, key);
                    assert(ls[j] == l);
                }
            }
        }
        I18nConfig { current_locale: self.current_locale.clone(), available_locales: r }
    }
}

} // verus!
