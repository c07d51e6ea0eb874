//! Browser automation: browser instances, the page each shows, and the actions taken on
//! them.

use vstd::prelude::*;
use crate::audit::{clone_opt, opt_view};
use crate::clock::{new_uuid, now_timestamp, MAX_TIMESTAMP};
use crate::error::AppError;
use crate::keyed::restrict_where;
use crate::rbac::lists_map;
use crate::store::{filter_pred, record_entries, Record, RecordFilter, Store};
use crate::text::{concat3, push_str, str_to_string};

verus! {

/// A browser instance.
#[derive(Debug)]
pub struct BrowserInstance {
    pub id: String,
    pub browser_type: String,
    pub headless: bool,
    pub url: Option<String>,
    pub title: Option<String>,
    pub is_active: bool,
    pub created_at: i64,
}

/// The value of a browser instance.
pub struct InstanceView {
    pub id: Seq<char>,
    pub browser_type: Seq<char>,
    pub headless: bool,
    pub url: Option<Seq<char>>,
    pub title: Option<Seq<char>>,
    pub is_active: bool,
    pub created_at: i64,
}

impl View for BrowserInstance {
    type V = InstanceView;

    open spec fn view(&self) -> InstanceView {
        InstanceView {
            id: self.id@,
            browser_type: self.browser_type@,
            headless: self.headless,
            url: opt_view(self.url),
            title: opt_view(self.title),
            is_active: self.is_active,
            created_at: self.created_at,
        }
    }
}

impl Record for BrowserInstance {
    open spec fn key_of(v: InstanceView) -> Seq<char> {
        v.id
    }

    fn key(&self) -> (r: &str) {
        self.id.as_str()
    }

    fn duplicate(&self) -> (r: Self) {
        BrowserInstance {
            id: self.id.clone(),
            browser_type: self.browser_type.clone(),
            headless: self.headless,
            url: clone_opt(&self.url),
            title: clone_opt(&self.title),
            is_active: self.is_active,
            created_at: self.created_at,
        }
    }
}

/// How browsers are launched.
#[derive(Debug)]
pub struct BrowserConfig {
    pub browser_type: String,
    pub headless: bool,
    pub viewport_width: u32,
    pub viewport_height: u32,
    pub user_agent: Option<String>,
}

/// A screenshot taken.
#[derive(Debug)]
pub struct ScreenshotResult {
    pub path: String,
    pub format: String,
    pub width: u32,
    pub height: u32,
}

/// The content of the page an instance shows.
#[derive(Debug)]
pub struct PageContent {
    pub url: String,
    pub title: String,
    pub text_content: String,
    pub html_content: String,
}

/// Counts over the instances, and the launch settings.
#[derive(Debug)]
pub struct BrowserStats {
    pub total_instances: usize,
    pub active_instances: usize,
    pub browser_type: String,
    pub headless: bool,
}

/// The URL an instance shows, or `unknown`.
pub open spec fn url_or_unknown(v: InstanceView) -> Seq<char> {
    match v.url { Some(u) => u, None => "unknown"@ }
}

/// Whether an action on instance `id` goes ahead: the instance exists and is active.
pub open spec fn usable(m: Map<Seq<char>, InstanceView>, id: Seq<char>) -> bool {
    m.dom().contains(id) && m[id].is_active
}

/// The error an action on an instance that is missing or closed gets.
pub open spec fn unusable_error(m: Map<Seq<char>, InstanceView>, id: Seq<char>, e: AppError) -> bool {
    if m.dom().contains(id) {
        e is Internal && e.message() == "Browser instance "@ + id + " is not active"@
    } else {
        e is NotFound && e.message() == "Browser instance "@ + id + " not found"@
    }
}

/// Active instances.
pub struct ActiveInstances;

impl RecordFilter<BrowserInstance> for ActiveInstances {
    open spec fn holds(&self, v: InstanceView) -> bool {
        v.is_active
    }

    fn test(&self, r: &BrowserInstance) -> (b: bool) {
        r.is_active
    }
}

/// Browser instances by id, and the launch settings.
pub struct BrowserManager {
    instances: Store<BrowserInstance>,
    config: BrowserConfig,
}

impl BrowserManager {
    /// The instances, by id.
    pub closed spec fn instances_view(&self) -> Map<Seq<char>, InstanceView> {
        self.instances.view_map()
    }

    /// The launch settings: browser type, headless, viewport width and height.
    pub closed spec fn config_view(&self) -> (Seq<char>, bool, u32, u32) {
        (self.config.browser_type@, self.config.headless, self.config.viewport_width, self.config.viewport_height)
    }

    /// The manager's invariant: each id is held once.
    pub closed spec fn wf(&self) -> bool {
        self.instances.wf()
    }

    /// No instances, with the given settings.
    pub fn new(config: BrowserConfig) -> (r: Self)
        ensures
            r.wf(),
            r.instances_view() == Map::<Seq<char>, InstanceView>::empty(),
            r.config_view() == (config.browser_type@, config.headless, config.viewport_width, config.viewport_height),
    {
        BrowserManager { instances: Store::new(), config }
    }

    /// Launches an active instance showing no page under `id`, at `now`, of
    /// `browser_type` (the configured type when not given); returns the id.
    pub fn launch_browser_at(&mut self, browser_type: Option<String>, id: String, now: i64) -> (r: Result<String, AppError>)
        requires
            old(self).wf(),
        ensures
            final(self).wf(),
            final(self).config_view() == old(self).config_view(),
            r == Ok::<String, AppError>(id),
            final(self).instances_view() == old(self).instances_view().insert(id@, InstanceView {
                id: id@,
                browser_type: match browser_type { Some(b) => b@, None => old(self).config_view().0 },
                headless: old(self).config_view().1,
                url: None,
                title: None,
                is_active: true,
                created_at: now,
            }),
    {
        let bt = match browser_type {
            Some(b) => b,
            None => self.config.browser_type.clone(),
        };
        let inst = BrowserInstance {
            id: id.clone(),
            browser_type: bt,
            headless: self.config.headless,
            url: None,
            title: None,
            is_active: true,
            created_at: now,
        };
        self.instances.insert(inst);
        Ok(id)
    }

    /// Launches an active instance under a fresh random id, now.
    pub fn launch_browser(&mut self, browser_type: Option<String>) -> (r: Result<String, AppError>)
        requires
            old(self).wf(),
        ensures
            final(self).wf(),
            final(self).config_view() == old(self).config_view(),
            r is Ok,
            match r {
                Ok(id) => final(self).instances_view().dom().contains(id@)
                    && final(self).instances_view()[id@].created_at < MAX_TIMESTAMP
                    && final(self).instances_view() == old(self).instances_view().insert(id@, InstanceView {
                        id: id@,
                        browser_type: match browser_type { Some(b) => b@, None => old(self).config_view().0 },
                        headless: old(self).config_view().1,
                        url: None,
                        title: None,
                        is_active: true,
                        created_at: final(self).instances_view()[id@].created_at,
                    }),
                Err(_) => false,
            },
    {
        let id = new_uuid();
        let now = now_timestamp();
        self.launch_browser_at(browser_type, id, now)
    }

    /// Closes the instance `id`; `NotFound` when there is none.
    pub fn close_browser(&mut self, id: &str) -> (r: Result<(), AppError>)
        requires
            old(self).wf(),
        ensures
            final(self).wf(),
            final(self).config_view() == old(self).config_view(),
            r is Ok <==> old(self).instances_view().dom().contains(id@),
            final(self).instances_view() == if r is Ok {
                old(self).instances_view().insert(id@, InstanceView { is_active: false, ..old(self).instances_view()[id@] })
            } else {
                old(self).instances_view()
            },
            r is Err ==> r->Err_0 is NotFound && r->Err_0.message() == "Browser instance "@ + id@ + " not found"@,
    {
        match self.instances.get_copy(id) {
            Some(mut i) => {
                i.is_active = false;
                self.instances.insert(i);
                Ok(())
            },
            None => Err(AppError::NotFound(concat3("Browser instance ", id, " not found"))),
        }
    }

    fn usable_instance(&self, id: &str) -> (r: Result<&BrowserInstance, AppError>)
        requires
            self.wf(),
        ensures
            r is Ok <==> usable(self.instances_view(), id@),
            match r {
                Ok(i) => i@ == self.instances_view()[id@] && i@.id == id@,
                Err(e) => unusable_error(self.instances_view(), id@, e),
            },
    {
        match self.instances.get(id) {
            Some(i) => {
                if !i.is_active {
                    return Err(AppError::Internal(concat3("Browser instance ", id, " is not active")));
                }
                Ok(i)
            },
            None => Err(AppError::NotFound(concat3("Browser instance ", id, " not found"))),
        }
    }

    /// Makes the active instance `instance_id` show `url`, titled `Page: <url>`; an error
    /// when it is missing or closed.
    pub fn navigate(&mut self, instance_id: &str, url: &str) -> (r: Result<(), AppError>)
        requires
            old(self).wf(),
        ensures
            final(self).wf(),
            final(self).config_view() == old(self).config_view(),
            r is Ok <==> usable(old(self).instances_view(), instance_id@),
            final(self).instances_view() == if r is Ok {
                old(self).instances_view().insert(instance_id@, InstanceView {
                    url: Some(url@), title: Some("Page: "@ + url@), ..old(self).instances_view()[instance_id@]
                })
            } else {
                old(self).instances_view()
            },
            r is Err ==> unusable_error(old(self).instances_view(), instance_id@, r->Err_0),
    {
        let mut inst = match self.usable_instance(instance_id) {
            Ok(i) => i.duplicate(),
            Err(e) => return Err(e),
        };
        inst.url = Some(str_to_string(url));
        inst.title = Some(concat3("Page: ", url, ""));
        proof {
            reveal_strlit("");
        }
        assert(inst@.title == Some("Page: "@ + url@));
        self.instances.insert(inst);
        Ok(())
    }

    /// Reports clicking `selector` on the page of the active instance `instance_id`.
    pub fn click(&self, instance_id: &str, selector: &str) -> (r: Result<String, AppError>)
        requires
            self.wf(),
        ensures
            r is Ok <==> usable(self.instances_view(), instance_id@),
            match r {
                Ok(s) => s@ == "Clicked on '"@ + selector@ + "' in "@ + url_or_unknown(self.instances_view()[instance_id@]),
                Err(e) => unusable_error(self.instances_view(), instance_id@, e),
            },
    {
        let inst = match self.usable_instance(instance_id) {
            Ok(i) => i,
            Err(e) => return Err(e),
        };
        let mut s = concat3("Clicked on '", selector, "' in ");
        push_url(&mut s, &inst.url);
        Ok(s)
    }

    /// Reports filling `selector` with `value` on the page of the active instance
    /// `instance_id`.
    pub fn fill(&self, instance_id: &str, selector: &str, value: &str) -> (r: Result<String, AppError>)
        requires
            self.wf(),
        ensures
            r is Ok <==> usable(self.instances_view(), instance_id@),
            match r {
                Ok(s) => s@ == "Filled '"@ + selector@ + "' with '"@ + value@ + "' in "@ + url_or_unknown(self.instances_view()[instance_id@]),
                Err(e) => unusable_error(self.instances_view(), instance_id@, e),
            },
    {
        let inst = match self.usable_instance(instance_id) {
            Ok(i) => i,
            Err(e) => return Err(e),
        };
        let mut s = concat3("Filled '", selector, "' with '");
        push_str(&mut s, value);
        push_str(&mut s, "' in ");
        push_url(&mut s, &inst.url);
        Ok(s)
    }

    /// The content of the page of the active instance `instance_id`.
    pub fn get_content(&self, instance_id: &str) -> (r: Result<PageContent, AppError>)
        requires
            self.wf(),
        ensures
            r is Ok <==> usable(self.instances_view(), instance_id@),
            match r {
                Ok(p) => p.url@ == (match self.instances_view()[instance_id@].url { Some(u) => u, None => Seq::<char>::empty() })
                    && p.title@ == (match self.instances_view()[instance_id@].title { Some(t) => t, None => Seq::<char>::empty() })
                    && p.text_content@ == "Page text content would be extracted here"@
                    && p.html_content@ == "<html><body>Page HTML content would be extracted here</body></html>"@,
                Err(e) => unusable_error(self.instances_view(), instance_id@, e),
            },
    {
        let inst = match self.usable_instance(instance_id) {
            Ok(i) => i,
            Err(e) => return Err(e),
        };
        let url = match &inst.url {
            Some(u) => u.clone(),
            None => String::new(),
        };
        let title = match &inst.title {
            Some(t) => t.clone(),
            None => String::new(),
        };
        Ok(PageContent {
            url,
            title,
            text_content: str_to_string("Page text content would be extracted here"),
            html_content: str_to_string("<html><body>Page HTML content would be extracted here</body></html>"),
        })
    }

    /// A screenshot of the active instance `instance_id` to `path` in `format`, of the
    /// viewport's size.
    pub fn screenshot(&self, instance_id: &str, path: &str, format: &str) -> (r: Result<ScreenshotResult, AppError>)
        requires
            self.wf(),
        ensures
            r is Ok <==> usable(self.instances_view(), instance_id@),
            match r {
                Ok(s) => s.path@ == path@ && s.format@ == format@ && s.width == self.config_view().2 && s.height == self.config_view().3,
                Err(e) => unusable_error(self.instances_view(), instance_id@, e),
            },
    {
        match self.usable_instance(instance_id) {
            Ok(_) => {},
            Err(e) => return Err(e),
        }
        Ok(ScreenshotResult {
            path: str_to_string(path),
            format: str_to_string(format),
            width: self.config.viewport_width,
            height: self.config.viewport_height,
        })
    }

    /// Reports evaluating `script` on the page of the active instance `instance_id`.
    pub fn evaluate(&self, instance_id: &str, script: &str) -> (r: Result<String, AppError>)
        requires
            self.wf(),
        ensures
            r is Ok <==> usable(self.instances_view(), instance_id@),
            match r {
                Ok(s) => s@ == "Evaluated script in "@ + url_or_unknown(self.instances_view()[instance_id@]) + ": "@ + script@,
                Err(e) => unusable_error(self.instances_view(), instance_id@, e),
            },
    {
        let inst = match self.usable_instance(instance_id) {
            Ok(i) => i,
            Err(e) => return Err(e),
        };
        let mut s = str_to_string("Evaluated script in ");
        push_url(&mut s, &inst.url);
        push_str(&mut s, ": ");
        push_str(&mut s, script);
        Ok(s)
    }

    /// Every instance, once each.
    pub fn list_instances(&self) -> (r: Vec<BrowserInstance>)
        requires
            self.wf(),
        ensures
            lists_map(record_entries(r@).map_values(|e: (Seq<char>, InstanceView)| e.0), r@.map_values(|x: BrowserInstance| x@), self.instances_view()),
    {
        self.instances.values()
    }

    /// Counts over the instances, and the launch settings.
    pub fn get_stats(&self) -> (r: BrowserStats)
        requires
            self.wf(),
        ensures
            r.total_instances == self.instances_view().dom().len(),
            r.active_instances == restrict_where(self.instances_view(), |v: InstanceView| v.is_active).dom().len(),
            r.browser_type@ == self.config_view().0,
            r.headless == self.config_view().1,
    {
        let f = ActiveInstances;
        let active = self.instances.values_where(&f);
        assert(restrict_where(self.instances_view(), filter_pred::<BrowserInstance, ActiveInstances>(&f))
            =~= restrict_where(self.instances_view(), |v: InstanceView| v.is_active));
        BrowserStats {
            total_instances: self.instances.len(),
            active_instances: active.len(),
            browser_type: self.config.browser_type.clone(),
            headless: self.config.headless,
        }
    }
}

fn push_url(s: &mut String, url: &Option<String>)
    ensures
        final(s)@ == old(s)@ + match opt_view(*url) { Some(u) => u, None => "unknown"@ },
{
    match url {
        Some(u) => push_str(s, u.as_str()),
        None => push_str(s, "unknown"),
    }
}

/// A closed browser instance takes no further action: after it is closed, every action
/// on it is refused with the error for an instance that is not active.
pub proof fn law_closed_instance_is_unusable(m: Map<Seq<char>, InstanceView>, id: Seq<char>, e: AppError)
    requires
        m.dom().contains(id),
    ensures
        !usable(m.insert(id, InstanceView { is_active: false, ..m[id] }), id),
        unusable_error(m.insert(id, InstanceView { is_active: false, ..m[id] }), id, e)
            <==> (e is Internal && e.message() == "Browser instance "@ + id + " is not active"@),
{
}

} // verus!
