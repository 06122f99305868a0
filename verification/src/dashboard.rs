//! The monitoring dashboard: layouts of widgets, the current layout, the connected
//! clients, and the data that the widgets show.

use vstd::prelude::*;
use crate::keys::{distinct, first_pos, has_key, lemma_first_pos, lemma_first_pos_at};
use crate::outside::{json_array, json_array_of, json_null, unix_time_millis};
use crate::text::join3;

verus! {

/// What a widget shows.
#[derive(Clone, Copy, Debug, PartialEq, Eq, Structural)]
pub enum WidgetType {
    SystemHealth,
    ServiceStatus,
    PerformanceChart,
    AlertList,
    MetricGauge,
    LogViewer,
    Custom,
}

/// A widget: where it sits on the grid, how large it is, and the data it shows.
#[derive(Debug)]
pub struct DashboardWidget {
    pub id: String,
    pub title: String,
    pub widget_type: WidgetType,
    pub position: (u32, u32),
    pub size: (u32, u32),
    pub config: std::collections::HashMap<String, String>,
    pub data: serde_json::Value,
    pub last_updated: u64,
}

impl View for DashboardWidget {
    type V = (
        Seq<char>,
        Seq<char>,
        WidgetType,
        (u32, u32),
        (u32, u32),
        Map<String, String>,
        serde_json::Value,
        u64,
    );

    open spec fn view(&self) -> Self::V {
        (
            self.id@,
            self.title@,
            self.widget_type,
            self.position,
            self.size,
            self.config@,
            self.data,
            self.last_updated,
        )
    }
}

impl Clone for DashboardWidget {
    fn clone(&self) -> (r: Self)
        ensures
            r@ == self@,
    {
        DashboardWidget {
            id: self.id.clone(),
            title: self.title.clone(),
            widget_type: self.widget_type,
            position: self.position,
            size: self.size,
            config: self.config.clone(),
            data: self.data.clone(),
            last_updated: self.last_updated,
        }
    }
}

/// The views of a sequence of widgets.
pub open spec fn widget_views(s: Seq<DashboardWidget>) -> Seq<<DashboardWidget as View>::V> {
    s.map_values(|w: DashboardWidget| w@)
}

/// The ids of a sequence of widgets.
pub open spec fn widget_ids(s: Seq<DashboardWidget>) -> Seq<Seq<char>> {
    s.map_values(|w: DashboardWidget| w.id@)
}

/// A named arrangement of widgets.
#[derive(Debug)]
pub struct DashboardLayout {
    pub id: String,
    pub name: String,
    pub description: String,
    pub widgets: Vec<DashboardWidget>,
    pub created_at: u64,
    pub updated_at: u64,
    pub is_default: bool,
}

impl View for DashboardLayout {
    type V = (Seq<char>, Seq<char>, Seq<char>, Seq<<DashboardWidget as View>::V>, u64, u64, bool);

    open spec fn view(&self) -> Self::V {
        (
            self.id@,
            self.name@,
            self.description@,
            widget_views(self.widgets@),
            self.created_at,
            self.updated_at,
            self.is_default,
        )
    }
}

fn clone_widgets(v: &Vec<DashboardWidget>) -> (r: Vec<DashboardWidget>)
    ensures
        widget_views(r@) == widget_views(v@),
{
    let mut out: Vec<DashboardWidget> = Vec::new();
    let n = v.len();
    let mut i: usize = 0;
    while i < n
        invariant
            n == v@.len(),
            i <= n,
            widget_views(out@) == widget_views(v@.take(i as int)),
        decreases n - i,
    {
        let ghost before = out@;
        out.push(v[i].clone());
        proof {
            assert(widget_views(out@) =~= widget_views(before).push(v@[i as int]@));
            assert(widget_views(v@.take(i + 1)) =~= widget_views(v@.take(i as int)).push(
                v@[i as int]@,
            ));
        }
        i = i + 1;
    }
    proof {
        assert(v@.take(n as int) =~= v@);
    }
    out
}

impl Clone for DashboardLayout {
    fn clone(&self) -> (r: Self)
        ensures
            r@ == self@,
    {
        DashboardLayout {
            id: self.id.clone(),
            name: self.name.clone(),
            description: self.description.clone(),
            widgets: clone_widgets(&self.widgets),
            created_at: self.created_at,
            updated_at: self.updated_at,
            is_default: self.is_default,
        }
    }
}

/// The views of a sequence of layouts.
pub open spec fn layout_views(s: Seq<DashboardLayout>) -> Seq<<DashboardLayout as View>::V> {
    s.map_values(|l: DashboardLayout| l@)
}

/// The ids of a sequence of layouts.
pub open spec fn layout_ids(s: Seq<DashboardLayout>) -> Seq<Seq<char>> {
    s.map_values(|l: DashboardLayout| l.id@)
}

/// Settings of the dashboard.
#[derive(Debug)]
pub struct DashboardConfig {
    pub refresh_interval_ms: u64,
    pub max_widgets_per_dashboard: usize,
    pub enable_real_time_updates: bool,
    pub enable_websocket: bool,
    pub websocket_port: u16,
    pub enable_export: bool,
    pub export_formats: Vec<String>,
}

impl Default for DashboardConfig {
    /// Refresh every second, at most 20 widgets a layout, real-time updates and the
    /// web socket on port 8080, export as "json" or "csv".
    fn default() -> (r: Self)
        ensures
            r.refresh_interval_ms == 1000,
            r.max_widgets_per_dashboard == 20,
            r.enable_real_time_updates,
            r.enable_websocket,
            r.websocket_port == 8080,
            r.enable_export,
            r.export_formats@.len() == 2,
            r.export_formats@[0]@ == "json"@,
            r.export_formats@[1]@ == "csv"@,
    {
        let mut formats: Vec<String> = Vec::new();
        formats.push(String::from_str("json"));
        formats.push(String::from_str("csv"));
        DashboardConfig {
            refresh_interval_ms: 1000,
            max_widgets_per_dashboard: 20,
            enable_real_time_updates: true,
            enable_websocket: true,
            websocket_port: 8080,
            enable_export: true,
            export_formats: formats,
        }
    }
}

/// A connected web socket client.
#[derive(Debug)]
pub struct WebSocketClient {
    pub id: String,
    pub connected_at: u64,
    pub last_activity: u64,
    pub subscribed_widgets: Vec<String>,
}

/// The ids of a sequence of clients.
pub open spec fn client_ids(s: Seq<WebSocketClient>) -> Seq<Seq<char>> {
    s.map_values(|c: WebSocketClient| c.id@)
}

/// Totals over the dashboard.
#[derive(Debug)]
pub struct DashboardStats {
    pub total_layouts: usize,
    pub total_widgets: usize,
    pub connected_clients: usize,
    pub active_layout: String,
    pub last_updated: u64,
}

// ---------------------------------------------------------------------------
// Widget data

/// The last `n` items of `s` (all of them when there are fewer).
pub open spec fn keep_last<A>(s: Seq<A>, n: nat) -> Seq<A> {
    if s.len() > n { s.skip(s.len() - n) } else { s }
}

/// The data that widgets show: the last system health report, the last 1000
/// performance samples, the last 500 alerts and the last value of each metric.
pub struct DashboardDataProvider {
    system_health_data: Option<serde_json::Value>,
    performance_data: Vec<serde_json::Value>,
    alert_data: Vec<serde_json::Value>,
    metric_data: vstd::hash_map::StringHashMap<serde_json::Value>,
}

/// Drops the oldest items until at most `n` are left.
pub fn trim_to_last<T>(v: &mut Vec<T>, n: usize)
    ensures
        final(v)@ == keep_last(old(v)@, n as nat),
{
    let ghost orig = v@;
    let total: usize = v.len();
    let mut k: usize = 0;
    while v.len() > n
        invariant
            v@ == orig.skip(k as int),
            orig.len() == total,
            k <= (if orig.len() > n { orig.len() - n } else { 0 }),
        decreases v.len(),
    {
        v.remove(0);
        proof {
            assert(v@ =~= orig.skip(k + 1));
        }
        k = k + 1;
    }
    proof {
        if orig.len() > n {
            assert(k == orig.len() - n);
        } else {
            assert(k == 0);
            assert(orig.skip(0) =~= orig);
        }
    }
}

fn push_keep_last(v: &mut Vec<serde_json::Value>, item: serde_json::Value, n: usize)
    requires
        n > 0,
    ensures
        final(v)@ == keep_last(old(v)@.push(item), n as nat),
{
    v.push(item);
    if v.len() > n {
        let drop = v.len() - n;
        let mut kept: Vec<serde_json::Value> = Vec::new();
        let len = v.len();
        let mut i: usize = drop;
        while i < len
            invariant
                len == v@.len(),
                drop <= i <= len,
                kept@ == v@.subrange(drop as int, i as int),
            decreases len - i,
        {
            kept.push(v[i].clone());
            proof {
                assert(v@.subrange(drop as int, i + 1) =~= v@.subrange(drop as int, i as int).push(
                    v@[i as int],
                ));
            }
            i = i + 1;
        }
        *v = kept;
    }
}

impl DashboardDataProvider {
    /// The last system health report.
    pub closed spec fn health(&self) -> Option<serde_json::Value> {
        self.system_health_data
    }

    /// The kept performance samples, oldest first.
    pub closed spec fn performance(&self) -> Seq<serde_json::Value> {
        self.performance_data@
    }

    /// The kept alerts, oldest first.
    pub closed spec fn alerts(&self) -> Seq<serde_json::Value> {
        self.alert_data@
    }

    /// The last value of each metric.
    pub closed spec fn metrics(&self) -> Map<Seq<char>, serde_json::Value> {
        self.metric_data@
    }

    /// A provider with no data.
    pub fn new() -> (r: Self)
        ensures
            r.health() is None,
            r.performance().len() == 0,
            r.alerts().len() == 0,
            r.metrics() == Map::<Seq<char>, serde_json::Value>::empty(),
    {
        DashboardDataProvider {
            system_health_data: None,
            performance_data: Vec::new(),
            alert_data: Vec::new(),
            metric_data: vstd::hash_map::StringHashMap::new(),
        }
    }

    /// Replaces the system health report.
    pub fn update_system_health(&mut self, health_data: serde_json::Value)
        ensures
            final(self).health() == Some(health_data),
            final(self).performance() == old(self).performance(),
            final(self).alerts() == old(self).alerts(),
            final(self).metrics() == old(self).metrics(),
    {
        self.system_health_data = Some(health_data);
    }

    /// Adds a performance sample; only the last 1000 are kept.
    pub fn update_performance_data(&mut self, perf_data: serde_json::Value)
        ensures
            final(self).performance() == keep_last(old(self).performance().push(perf_data), 1000),
            final(self).health() == old(self).health(),
            final(self).alerts() == old(self).alerts(),
            final(self).metrics() == old(self).metrics(),
    {
        push_keep_last(&mut self.performance_data, perf_data, 1000);
    }

    /// Adds an alert; only the last 500 are kept.
    pub fn update_alert_data(&mut self, alert_data: serde_json::Value)
        ensures
            final(self).alerts() == keep_last(old(self).alerts().push(alert_data), 500),
            final(self).health() == old(self).health(),
            final(self).performance() == old(self).performance(),
            final(self).metrics() == old(self).metrics(),
    {
        push_keep_last(&mut self.alert_data, alert_data, 500);
    }

    /// Sets the value of a metric.
    pub fn update_metric_data(&mut self, metric_name: String, metric_data: serde_json::Value)
        ensures
            final(self).metrics() == old(self).metrics().insert(metric_name@, metric_data),
            final(self).health() == old(self).health(),
            final(self).performance() == old(self).performance(),
            final(self).alerts() == old(self).alerts(),
    {
        self.metric_data.insert(metric_name, metric_data);
    }

    /// The data for a widget: the health report, the array of performance samples, the
    /// array of alerts, or the metric named by the widget's id (JSON null where there is
    /// none, and for the other kinds of widget).
    pub fn get_widget_data(&self, widget_type: &WidgetType, widget_id: &str) -> (r:
        serde_json::Value)
        ensures
            *widget_type == WidgetType::SystemHealth && self.health() is Some ==> r
                == self.health().unwrap(),
            *widget_type == WidgetType::PerformanceChart ==> r == json_array_of(self.performance()),
            *widget_type == WidgetType::AlertList ==> r == json_array_of(self.alerts()),
            *widget_type == WidgetType::MetricGauge && self.metrics().contains_key(widget_id@) ==> r
                == self.metrics()[widget_id@],
    {
        match widget_type {
            WidgetType::SystemHealth => match &self.system_health_data {
                Some(v) => v.clone(),
                None => json_null(),
            },
            WidgetType::PerformanceChart => json_array(clone_values(&self.performance_data)),
            WidgetType::AlertList => json_array(clone_values(&self.alert_data)),
            WidgetType::MetricGauge => match self.metric_data.get(widget_id) {
                Some(v) => v.clone(),
                None => json_null(),
            },
            _ => json_null(),
        }
    }
}

fn clone_values(v: &Vec<serde_json::Value>) -> (r: Vec<serde_json::Value>)
    ensures
        r@ == v@,
{
    let mut out: Vec<serde_json::Value> = Vec::new();
    let n = v.len();
    let mut i: usize = 0;
    while i < n
        invariant
            n == v@.len(),
            i <= n,
            out@ == v@.take(i as int),
        decreases n - i,
    {
        out.push(v[i].clone());
        proof {
            assert(v@.take(i + 1) =~= v@.take(i as int).push(v@[i as int]));
        }
        i = i + 1;
    }
    proof {
        assert(v@.take(n as int) =~= v@);
    }
    out
}

// ---------------------------------------------------------------------------
// Server

/// The `k`-th built-in widget: system health, service status, performance chart and
/// alert list, with their places and sizes on the grid, no settings, never updated.
pub open spec fn default_widget(w: DashboardWidget, k: int) -> bool {
    &&& w.config@ == Map::<String, String>::empty()
    &&& w.last_updated == 0
    &&& k == 0 ==> w.id@ == "system_health"@ && w.title@ == "시스템 헬스"@ && w.widget_type
        == WidgetType::SystemHealth && w.position == (0u32, 0u32) && w.size == (4u32, 2u32)
    &&& k == 1 ==> w.id@ == "service_status"@ && w.title@ == "서비스 상태"@ && w.widget_type
        == WidgetType::ServiceStatus && w.position == (4u32, 0u32) && w.size == (4u32, 2u32)
    &&& k == 2 ==> w.id@ == "performance_chart"@ && w.title@ == "성능 차트"@ && w.widget_type
        == WidgetType::PerformanceChart && w.position == (0u32, 2u32) && w.size == (8u32, 3u32)
    &&& k == 3 ==> w.id@ == "alert_list"@ && w.title@ == "알림 목록"@ && w.widget_type
        == WidgetType::AlertList && w.position == (8u32, 0u32) && w.size == (4u32, 5u32)
}

/// The built-in layout "default", made at `now`, with the four built-in widgets.
pub open spec fn default_layout(l: DashboardLayout, now: u64) -> bool {
    &&& l.id@ == "default"@
    &&& l.name@ == "기본 대시보드"@
    &&& l.description@ == "시스템 모니터링 기본 대시보드"@
    &&& l.widgets@.len() == 4
    &&& forall|k: int| 0 <= k < 4 ==> default_widget(#[trigger] l.widgets@[k], k)
    &&& l.created_at == now
    &&& l.updated_at == now
    &&& l.is_default
}

fn new_widget(
    id: &str,
    title: &str,
    widget_type: WidgetType,
    position: (u32, u32),
    size: (u32, u32),
) -> (r: DashboardWidget)
    ensures
        r.id@ == id@,
        r.title@ == title@,
        r.widget_type == widget_type,
        r.position == position,
        r.size == size,
        r.config@ == Map::<String, String>::empty(),
        r.last_updated == 0,
{
    DashboardWidget {
        id: String::from_str(id),
        title: String::from_str(title),
        widget_type,
        position,
        size,
        config: std::collections::HashMap::new(),
        data: json_null(),
        last_updated: 0,
    }
}

/// The built-in layout, made at `now`.
fn create_default_layout(now: u64) -> (r: DashboardLayout)
    ensures
        default_layout(r, now),
{
    let mut widgets: Vec<DashboardWidget> = Vec::new();
    widgets.push(new_widget("system_health", "시스템 헬스", WidgetType::SystemHealth, (0, 0), (4, 2)));
    widgets.push(new_widget("service_status", "서비스 상태", WidgetType::ServiceStatus, (4, 0), (4, 2)));
    widgets.push(
        new_widget("performance_chart", "성능 차트", WidgetType::PerformanceChart, (0, 2), (8, 3)),
    );
    widgets.push(new_widget("alert_list", "알림 목록", WidgetType::AlertList, (8, 0), (4, 5)));
    DashboardLayout {
        id: String::from_str("default"),
        name: String::from_str("기본 대시보드"),
        description: String::from_str("시스템 모니터링 기본 대시보드"),
        widgets,
        created_at: now,
        updated_at: now,
        is_default: true,
    }
}

/// The number of widgets over all layouts.
pub open spec fn widget_total(s: Seq<DashboardLayout>) -> nat
    decreases s.len(),
{
    if s.len() == 0 { 0 } else { widget_total(s.drop_last()) + s.last().widgets@.len() }
}

/// The widgets without id `id`, in order.
pub open spec fn without_widget(s: Seq<DashboardWidget>, id: Seq<char>) -> Seq<DashboardWidget>
    decreases s.len(),
{
    if s.len() == 0 {
        Seq::empty()
    } else if s.last().id@ == id {
        without_widget(s.drop_last(), id)
    } else {
        without_widget(s.drop_last(), id).push(s.last())
    }
}

pub proof fn lemma_without_widget_len(s: Seq<DashboardWidget>, id: Seq<char>)
    ensures
        without_widget(s, id).len() <= s.len(),
        without_widget(s, id).len() == s.len() <==> !widget_ids(s).contains(id),
    decreases s.len(),
{
    if s.len() > 0 {
        lemma_without_widget_len(s.drop_last(), id);
        let a = widget_ids(s.drop_last());
        let b = widget_ids(s);
        assert(b =~= a.push(s.last().id@));
        if a.contains(id) {
            let j = choose|j: int| 0 <= j < a.len() && a[j] == id;
            assert(b[j] == id);
        }
        if s.last().id@ == id {
            assert(b[b.len() - 1] == id);
        }
        if b.contains(id) {
            let j = choose|j: int| 0 <= j < b.len() && b[j] == id;
            if j < a.len() {
                assert(a[j] == id);
            }
        }
    }
}

/// The dashboard server: its settings, the layouts (at most ten, ids all different,
/// "default" among them), the id of the current layout, whether it runs, and the
/// connected clients (ids all different).
pub struct DashboardServer {
    config: DashboardConfig,
    layouts: Vec<DashboardLayout>,
    current_layout: String,
    is_running: bool,
    websocket_clients: Vec<WebSocketClient>,
}

impl DashboardServer {
    /// The layouts.
    pub closed spec fn layouts(&self) -> Seq<DashboardLayout> {
        self.layouts@
    }

    /// The id of the current layout.
    pub closed spec fn current(&self) -> Seq<char> {
        self.current_layout@
    }

    /// The connected clients.
    pub closed spec fn clients(&self) -> Seq<WebSocketClient> {
        self.websocket_clients@
    }

    /// Whether the server runs.
    pub closed spec fn running(&self) -> bool {
        self.is_running
    }

    /// The refresh interval of the widgets, in milliseconds.
    pub closed spec fn refresh(&self) -> u64 {
        self.config.refresh_interval_ms
    }

    /// The most widgets per layout.
    pub closed spec fn max_widgets(&self) -> usize {
        self.config.max_widgets_per_dashboard
    }

    /// At most ten layouts with different ids, "default" and the current one among
    /// them; clients with different ids.
    pub open spec fn wf(&self) -> bool {
        &&& self.layouts().len() <= 10
        &&& distinct(layout_ids(self.layouts()))
        &&& has_key(layout_ids(self.layouts()), "default"@)
        &&& has_key(layout_ids(self.layouts()), self.current())
        &&& distinct(client_ids(self.clients()))
    }

    /// A server with the built-in layout "default" (made now) as its only and current
    /// layout, no clients, not running.
    pub fn new(config: DashboardConfig) -> (r: Self)
        ensures
            r.wf(),
            r.layouts().len() == 1,
            default_layout(r.layouts()[0], r.layouts()[0].created_at),
            r.current() == "default"@,
            r.clients().len() == 0,
            !r.running(),
            r.max_widgets() == config.max_widgets_per_dashboard,
            r.refresh() == config.refresh_interval_ms,
    {
        let now = unix_time_millis();
        let mut layouts: Vec<DashboardLayout> = Vec::new();
        layouts.push(create_default_layout(now));
        let r = DashboardServer {
            config,
            layouts,
            current_layout: String::from_str("default"),
            is_running: false,
            websocket_clients: Vec::new(),
        };
        proof {
            assert(layout_ids(r.layouts@)[0] == "default"@);
            lemma_first_pos_at(layout_ids(r.layouts@), "default"@, 0);
        }
        r
    }

    fn find_layout(&self, id: &str) -> (r: usize)
        ensures
            r == first_pos(layout_ids(self.layouts()), id@),
            r <= self.layouts().len(),
            r < self.layouts().len() ==> self.layouts()[r as int].id@ == id@,
    {
        let ghost ids = layout_ids(self.layouts@);
        proof {
            lemma_first_pos(ids, id@);
        }
        let key = String::from_str(id);
        let n = self.layouts.len();
        let mut i: usize = 0;
        while i < n
            invariant
                n == self.layouts@.len(),
                ids == layout_ids(self.layouts@),
                key@ == id@,
                i <= n,
                forall|j: int| 0 <= j < i ==> ids[j] != id@,
            decreases n - i,
        {
            if self.layouts[i].id == key {
                proof {
                    lemma_first_pos_at(ids, id@, i as int);
                }
                return i;
            }
            i = i + 1;
        }
        proof {
            lemma_first_pos_at(ids, id@, n as int);
        }
        n
    }

    fn find_client(&self, id: &str) -> (r: usize)
        ensures
            r == first_pos(client_ids(self.clients()), id@),
            r <= self.clients().len(),
    {
        let ghost ids = client_ids(self.websocket_clients@);
        proof {
            lemma_first_pos(ids, id@);
        }
        let key = String::from_str(id);
        let n = self.websocket_clients.len();
        let mut i: usize = 0;
        while i < n
            invariant
                n == self.websocket_clients@.len(),
                ids == client_ids(self.websocket_clients@),
                key@ == id@,
                i <= n,
                forall|j: int| 0 <= j < i ==> ids[j] != id@,
            decreases n - i,
        {
            if self.websocket_clients[i].id == key {
                proof {
                    lemma_first_pos_at(ids, id@, i as int);
                }
                return i;
            }
            i = i + 1;
        }
        proof {
            lemma_first_pos_at(ids, id@, n as int);
        }
        n
    }

    /// Starts the server; false, and nothing changes, when it already runs.
    pub fn start(&mut self) -> (r: bool)
        ensures
            r == !old(self).running(),
            final(self).running(),
            final(self).layouts() == old(self).layouts(),
            final(self).current() == old(self).current(),
            final(self).clients() == old(self).clients(),
            final(self).max_widgets() == old(self).max_widgets(),
    {
        if self.is_running {
            return false;
        }
        self.is_running = true;
        true
    }

    /// Stops the server.
    pub fn stop(&mut self)
        ensures
            !final(self).running(),
            final(self).layouts() == old(self).layouts(),
            final(self).current() == old(self).current(),
            final(self).clients() == old(self).clients(),
            final(self).max_widgets() == old(self).max_widgets(),
    {
        self.is_running = false;
    }

    /// Whether the server runs.
    pub fn is_running(&self) -> (r: bool)
        ensures
            r == self.running(),
    {
        self.is_running
    }

    /// The refresh interval in milliseconds.
    pub fn refresh_interval_ms(&self) -> (r: u64)
        ensures
            r == self.refresh(),
    {
        self.config.refresh_interval_ms
    }

    /// A copy of the layout with id `layout_id`, if there is one.
    pub fn get_layout(&self, layout_id: &str) -> (r: Option<DashboardLayout>)
        ensures
            ({
                let k = first_pos(layout_ids(self.layouts()), layout_id@);
                &&& (r is Some) == (k < self.layouts().len())
                &&& r matches Some(l) ==> l@ == self.layouts()[k as int]@
            }),
    {
        let k = self.find_layout(layout_id);
        if k < self.layouts.len() {
            Some(self.layouts[k].clone())
        } else {
            None
        }
    }

    /// A copy of the current layout.
    pub fn get_current_layout(&self) -> (r: Option<DashboardLayout>)
        ensures
            ({
                let k = first_pos(layout_ids(self.layouts()), self.current());
                &&& (r is Some) == (k < self.layouts().len())
                &&& r matches Some(l) ==> l@ == self.layouts()[k as int]@
            }),
    {
        self.get_layout(self.current_layout.as_str())
    }

    /// Makes the layout with id `layout_id` the current one; none is an error.
    pub fn switch_layout(&mut self, layout_id: &str) -> (r: Result<(), String>)
        requires
            old(self).wf(),
        ensures
            final(self).wf(),
            final(self).layouts() == old(self).layouts(),
            final(self).clients() == old(self).clients(),
            final(self).running() == old(self).running(),
            final(self).max_widgets() == old(self).max_widgets(),
            (r is Ok) == has_key(layout_ids(old(self).layouts()), layout_id@),
            r is Ok ==> final(self).current() == layout_id@,
            r matches Err(e) ==> e@ == "레이아웃을 찾을 수 없습니다: "@ + layout_id@
                && final(self).current() == old(self).current(),
    {
        let k = self.find_layout(layout_id);
        if k >= self.layouts.len() {
            let e = join3("레이아웃을 찾을 수 없습니다: ", layout_id, "");
            proof {
                reveal_strlit("");
                assert(e@ =~= "레이아웃을 찾을 수 없습니다: "@ + layout_id@);
            }
            return Err(e);
        }
        self.current_layout = String::from_str(layout_id);
        Ok(())
    }

    /// Adds a layout. A layout with the same id, or ten layouts already, is an error
    /// (checked in that order).
    pub fn create_layout(&mut self, layout: DashboardLayout) -> (r: Result<(), String>)
        requires
            old(self).wf(),
        ensures
            final(self).wf(),
            final(self).current() == old(self).current(),
            final(self).clients() == old(self).clients(),
            final(self).running() == old(self).running(),
            final(self).max_widgets() == old(self).max_widgets(),
            ({
                let dup = has_key(layout_ids(old(self).layouts()), layout.id@);
                let full = old(self).layouts().len() >= 10;
                &&& (r is Ok) == (!dup && !full)
                &&& r is Ok ==> final(self).layouts() == old(self).layouts().push(layout)
                &&& r matches Err(e) ==> final(self).layouts() == old(self).layouts() && (if dup {
                    e@ == "레이아웃이 이미 존재합니다: "@ + layout.id@
                } else {
                    e@ == "최대 레이아웃 수를 초과했습니다"@
                })
            }),
    {
        let k = self.find_layout(layout.id.as_str());
        if k < self.layouts.len() {
            let e = join3("레이아웃이 이미 존재합니다: ", layout.id.as_str(), "");
            proof {
                reveal_strlit("");
                assert(e@ =~= "레이아웃이 이미 존재합니다: "@ + layout.id@);
            }
            return Err(e);
        }
        if self.layouts.len() >= 10 {
            return Err(String::from_str("최대 레이아웃 수를 초과했습니다"));
        }
        let ghost before = self.layouts@;
        self.layouts.push(layout);
        proof {
            let ids = layout_ids(self.layouts@);
            lemma_first_pos(layout_ids(before), layout.id@);
            assert(layout_ids(before) =~= ids.drop_last());
            assert(ids[ids.len() - 1] == layout.id@);
            assert forall|i: int, j: int| 0 <= i < j < ids.len() implies ids[i] != ids[j] by {
                assert(ids[i] == layout_ids(before)[i]);
                if j < ids.len() - 1 {
                    assert(ids[j] == layout_ids(before)[j]);
                }
            }
            lemma_first_pos(layout_ids(before), "default"@);
            lemma_first_pos_at(ids, "default"@, first_pos(layout_ids(before), "default"@) as int);
            lemma_first_pos(layout_ids(before), self.current_layout@);
            lemma_first_pos_at(
                ids,
                self.current_layout@,
                first_pos(layout_ids(before), self.current_layout@) as int,
            );
        }
        Ok(())
    }

    /// Deletes the layout with id `layout_id`; the current layout becomes "default" if
    /// it was the one deleted. Deleting "default", or a layout that is not there, is an
    /// error.
    pub fn delete_layout(&mut self, layout_id: &str) -> (r: Result<(), String>)
        requires
            old(self).wf(),
        ensures
            final(self).wf(),
            final(self).clients() == old(self).clients(),
            final(self).running() == old(self).running(),
            final(self).max_widgets() == old(self).max_widgets(),
            ({
                let k = first_pos(layout_ids(old(self).layouts()), layout_id@);
                let is_default = layout_id@ == "default"@;
                let found = k < old(self).layouts().len();
                &&& (r is Ok) == (!is_default && found)
                &&& r is Ok ==> final(self).layouts() == old(self).layouts().remove(k as int)
                    && final(self).current() == (if old(self).current() == layout_id@ {
                    "default"@
                } else {
                    old(self).current()
                })
                &&& r matches Err(e) ==> final(self).layouts() == old(self).layouts()
                    && final(self).current() == old(self).current() && (if is_default {
                    e@ == "기본 레이아웃은 삭제할 수 없습니다"@
                } else {
                    e@ == "레이아웃을 찾을 수 없습니다: "@ + layout_id@
                })
            }),
    {
        let key = String::from_str(layout_id);
        let default_key = String::from_str("default");
        if key == default_key {
            return Err(String::from_str("기본 레이아웃은 삭제할 수 없습니다"));
        }
        let k = self.find_layout(layout_id);
        if k >= self.layouts.len() {
            let e = join3("레이아웃을 찾을 수 없습니다: ", layout_id, "");
            proof {
                reveal_strlit("");
                assert(e@ =~= "레이아웃을 찾을 수 없습니다: "@ + layout_id@);
            }
            return Err(e);
        }
        let ghost before = self.layouts@;
        self.layouts.remove(k);
        if self.current_layout == key {
            self.current_layout = default_key;
        }
        proof {
            let old_ids = layout_ids(before);
            let ids = layout_ids(self.layouts@);
            assert(ids =~= old_ids.remove(k as int));
            assert forall|i: int, j: int| 0 <= i < j < ids.len() implies ids[i] != ids[j] by {
                let i0 = if i < k { i } else { i + 1 };
                let j0 = if j < k { j } else { j + 1 };
                assert(ids[i] == old_ids[i0] && ids[j] == old_ids[j0]);
            }
            lemma_first_pos(old_ids, layout_id@);
            lemma_first_pos(old_ids, "default"@);
            let d = first_pos(old_ids, "default"@) as int;
            assert(d != k);
            let d2 = if d < k { d } else { d - 1 };
            assert(ids[d2] == "default"@);
            lemma_first_pos(ids, "default"@);
            if first_pos(ids, "default"@) >= ids.len() {
                assert(ids[d2] != "default"@);
            }
            lemma_first_pos(old_ids, old(self).current_layout@);
            if old(self).current_layout@ != layout_id@ {
                let c = first_pos(old_ids, old(self).current_layout@) as int;
                assert(c != k);
                let c2 = if c < k { c } else { c - 1 };
                assert(ids[c2] == old(self).current_layout@);
                lemma_first_pos(ids, self.current_layout@);
                if first_pos(ids, self.current_layout@) >= ids.len() {
                    assert(ids[c2] != self.current_layout@);
                }
            }
        }
        Ok(())
    }

    /// Adds a widget to the layout with id `layout_id`, stamped with the time now.
    pub fn add_widget(&mut self, layout_id: &str, widget: DashboardWidget) -> (r: Result<(), String>)
        requires
            old(self).wf(),
        ensures
            final(self).wf(),
            final(self).current() == old(self).current(),
            final(self).clients() == old(self).clients(),
            final(self).running() == old(self).running(),
            final(self).max_widgets() == old(self).max_widgets(),
            final(self).layouts().len() == old(self).layouts().len(),
            ({
                let k = first_pos(layout_ids(old(self).layouts()), layout_id@);
                let found = k < old(self).layouts().len();
                let l = old(self).layouts()[k as int];
                &&& (r is Ok) == (found && l.widgets@.len() < old(self).max_widgets()
                    && !widget_ids(l.widgets@).contains(widget.id@))
                &&& r is Ok ==> final(self).layouts()[k as int].widgets@ == l.widgets@.push(widget)
                &&& r is Err ==> final(self).layouts() == old(self).layouts()
                &&& forall|j: int| 0 <= j < old(self).layouts().len() && j != k ==> #[trigger] final(self).layouts()[j] == old(self).layouts()[j]
            }),
    {
        let now = unix_time_millis();
        self.add_widget_at(layout_id, widget, now)
    }

    /// Adds a widget to the layout with id `layout_id` and sets the layout's update time
    /// to `now`. No such layout, a full layout (the configured most widgets), or a
    /// widget id already in the layout is an error (checked in that order).
    pub fn add_widget_at(&mut self, layout_id: &str, widget: DashboardWidget, now: u64) -> (r: Result<
        (),
        String,
    >)
        requires
            old(self).wf(),
        ensures
            final(self).wf(),
            final(self).current() == old(self).current(),
            final(self).clients() == old(self).clients(),
            final(self).running() == old(self).running(),
            final(self).max_widgets() == old(self).max_widgets(),
            final(self).layouts().len() == old(self).layouts().len(),
            ({
                let k = first_pos(layout_ids(old(self).layouts()), layout_id@);
                let found = k < old(self).layouts().len();
                let l = old(self).layouts()[k as int];
                let full = l.widgets@.len() >= old(self).max_widgets();
                let dup = widget_ids(l.widgets@).contains(widget.id@);
                &&& (r is Ok) == (found && !full && !dup)
                &&& r is Ok ==> final(self).layouts()[k as int] == (DashboardLayout {
                    widgets: final(self).layouts()[k as int].widgets,
                    updated_at: now,
                    ..l
                }) && final(self).layouts()[k as int].widgets@ == l.widgets@.push(widget)
                &&& r matches Err(e) ==> final(self).layouts() == old(self).layouts() && (if !found {
                    e@ == "레이아웃을 찾을 수 없습니다: "@ + layout_id@
                } else if full {
                    e@ == "최대 위젯 수를 초과했습니다"@
                } else {
                    e@ == "위젯 ID가 중복됩니다: "@ + widget.id@
                })
                &&& forall|j: int| 0 <= j < old(self).layouts().len() && j != k ==> #[trigger] final(self).layouts()[j] == old(self).layouts()[j]
            }),
    {
        let k = self.find_layout(layout_id);
        if k >= self.layouts.len() {
            let e = join3("레이아웃을 찾을 수 없습니다: ", layout_id, "");
            proof {
                reveal_strlit("");
                assert(e@ =~= "레이아웃을 찾을 수 없습니다: "@ + layout_id@);
            }
            return Err(e);
        }
        if self.layouts[k].widgets.len() >= self.config.max_widgets_per_dashboard {
            return Err(String::from_str("최대 위젯 수를 초과했습니다"));
        }
        let n = self.layouts[k].widgets.len();
        let mut i: usize = 0;
        while i < n
            invariant
                *self == *old(self),
                old(self).wf(),
                k == first_pos(layout_ids(old(self).layouts()), layout_id@),
                k < self.layouts@.len(),
                n == self.layouts@[k as int].widgets@.len(),
                n < self.config.max_widgets_per_dashboard,
                i <= n,
                forall|j: int| 0 <= j < i ==> self.layouts@[k as int].widgets@[j].id@ != widget.id@,
            decreases n - i,
        {
            if self.layouts[k].widgets[i].id == widget.id {
                proof {
                    assert(widget_ids(self.layouts@[k as int].widgets@)[i as int] == widget.id@);
                }
                let e = join3("위젯 ID가 중복됩니다: ", widget.id.as_str(), "");
                proof {
                    reveal_strlit("");
                    assert(e@ =~= "위젯 ID가 중복됩니다: "@ + widget.id@);
                }
                return Err(e);
            }
            i = i + 1;
        }
        proof {
            let ws = self.layouts@[k as int].widgets@;
            if widget_ids(ws).contains(widget.id@) {
                let j = choose|j: int| 0 <= j < widget_ids(ws).len() && widget_ids(ws)[j] == widget.id@;
                assert(ws[j].id@ == widget.id@);
            }
        }
        let ghost before = self.layouts@;
        let l = &mut self.layouts[k];
        l.widgets.push(widget);
        l.updated_at = now;
        proof {
            assert(layout_ids(self.layouts@) =~= layout_ids(before));
        }
        Ok(())
    }

    /// Removes the widgets with id `widget_id` from the layout with id `layout_id`,
    /// stamped with the time now.
    pub fn remove_widget(&mut self, layout_id: &str, widget_id: &str) -> (r: Result<(), String>)
        requires
            old(self).wf(),
        ensures
            final(self).wf(),
            final(self).current() == old(self).current(),
            final(self).clients() == old(self).clients(),
            final(self).running() == old(self).running(),
            final(self).max_widgets() == old(self).max_widgets(),
            final(self).layouts().len() == old(self).layouts().len(),
            ({
                let k = first_pos(layout_ids(old(self).layouts()), layout_id@);
                let found = k < old(self).layouts().len();
                let l = old(self).layouts()[k as int];
                &&& (r is Ok) == (found && widget_ids(l.widgets@).contains(widget_id@))
                &&& r is Ok ==> final(self).layouts()[k as int].widgets@ == without_widget(l.widgets@, widget_id@)
                &&& r is Err ==> final(self).layouts() == old(self).layouts()
                &&& forall|j: int| 0 <= j < old(self).layouts().len() && j != k ==> #[trigger] final(self).layouts()[j] == old(self).layouts()[j]
            }),
    {
        let now = unix_time_millis();
        self.remove_widget_at(layout_id, widget_id, now)
    }

    /// Removes every widget with id `widget_id` from the layout with id `layout_id`
    /// and sets the layout's update time to `now`. No such layout, or no such widget in
    /// it, is an error.
    pub fn remove_widget_at(&mut self, layout_id: &str, widget_id: &str, now: u64) -> (r: Result<
        (),
        String,
    >)
        requires
            old(self).wf(),
        ensures
            final(self).wf(),
            final(self).current() == old(self).current(),
            final(self).clients() == old(self).clients(),
            final(self).running() == old(self).running(),
            final(self).max_widgets() == old(self).max_widgets(),
            final(self).layouts().len() == old(self).layouts().len(),
            ({
                let k = first_pos(layout_ids(old(self).layouts()), layout_id@);
                let found = k < old(self).layouts().len();
                let l = old(self).layouts()[k as int];
                let present = widget_ids(l.widgets@).contains(widget_id@);
                &&& (r is Ok) == (found && present)
                &&& r is Ok ==> final(self).layouts()[k as int] == (DashboardLayout {
                    widgets: final(self).layouts()[k as int].widgets,
                    updated_at: now,
                    ..l
                }) && final(self).layouts()[k as int].widgets@ == without_widget(l.widgets@, widget_id@)
                &&& r matches Err(e) ==> final(self).layouts() == old(self).layouts() && (if !found {
                    e@ == "레이아웃을 찾을 수 없습니다: "@ + layout_id@
                } else {
                    e@ == "위젯을 찾을 수 없습니다: "@ + widget_id@
                })
                &&& forall|j: int| 0 <= j < old(self).layouts().len() && j != k ==> #[trigger] final(self).layouts()[j] == old(self).layouts()[j]
            }),
    {
        let k = self.find_layout(layout_id);
        if k >= self.layouts.len() {
            let e = join3("레이아웃을 찾을 수 없습니다: ", layout_id, "");
            proof {
                reveal_strlit("");
                assert(e@ =~= "레이아웃을 찾을 수 없습니다: "@ + layout_id@);
            }
            return Err(e);
        }
        let key = String::from_str(widget_id);
        let m = self.layouts[k].widgets.len();
        let mut p: usize = 0;
        let mut present = false;
        while p < m
            invariant
                *self == *old(self),
                old(self).wf(),
                k == first_pos(layout_ids(old(self).layouts()), layout_id@),
                k < self.layouts@.len(),
                m == self.layouts@[k as int].widgets@.len(),
                key@ == widget_id@,
                p <= m,
                present == exists|j: int| 0 <= j < p && self.layouts@[k as int].widgets@[j].id@ == widget_id@,
            decreases m - p,
        {
            if self.layouts[k].widgets[p].id == key {
                present = true;
            }
            p = p + 1;
        }
        proof {
            let ws0 = self.layouts@[k as int].widgets@;
            if widget_ids(ws0).contains(widget_id@) {
                let j = choose|j: int| 0 <= j < widget_ids(ws0).len() && widget_ids(ws0)[j] == widget_id@;
                assert(ws0[j].id@ == widget_id@);
            }
            if present {
                let j = choose|j: int| 0 <= j < m && ws0[j].id@ == widget_id@;
                assert(widget_ids(ws0)[j] == widget_id@);
            }
        }
        if !present {
            let e = join3("위젯을 찾을 수 없습니다: ", widget_id, "");
            proof {
                reveal_strlit("");
                assert(e@ =~= "위젯을 찾을 수 없습니다: "@ + widget_id@);
            }
            return Err(e);
        }
        let mut kept: Vec<DashboardWidget> = Vec::new();
        let mut src: Vec<DashboardWidget> = Vec::new();
        let ghost ws = self.layouts@[k as int].widgets@;
        let ghost before = self.layouts@;
        {
            let l = &mut self.layouts[k];
            std::mem::swap(&mut src, &mut l.widgets);
        }
        let n = src.len();
        let mut rev: Vec<DashboardWidget> = Vec::new();
        while src.len() > 0
            invariant
                n == ws.len(),
                src@.len() + rev@.len() == n,
                src@ == ws.take(src@.len() as int),
                forall|j: int| 0 <= j < rev@.len() ==> rev@[j] == ws[n - 1 - j],
            decreases src@.len(),
        {
            let w = src.pop().unwrap();
            rev.push(w);
            proof {
                assert(src@ =~= ws.take(src@.len() as int));
            }
        }
        let mut i: usize = 0;
        while i < n
            invariant
                n == ws.len(),
                key@ == widget_id@,
                i <= n,
                rev@.len() == n - i,
                forall|j: int| 0 <= j < n - i ==> rev@[j] == ws[n - 1 - j],
                kept@ == without_widget(ws.take(i as int), widget_id@),
            decreases n - i,
        {
            let w = rev.pop().unwrap();
            proof {
                let t = ws.take(i + 1);
                assert(t.drop_last() =~= ws.take(i as int));
                assert(w == ws[i as int]);
            }
            if w.id != key {
                kept.push(w);
            }
            i = i + 1;
        }
        proof {
            assert(ws.take(n as int) =~= ws);
        }
        let l = &mut self.layouts[k];
        l.widgets = kept;
        l.updated_at = now;
        proof {
            assert(layout_ids(self.layouts@) =~= layout_ids(before));
        }
        Ok(())
    }

    /// Connects a client, stamped with the time now.
    pub fn connect_websocket_client(&mut self, client_id: String) -> (r: Result<(), String>)
        requires
            old(self).wf(),
        ensures
            final(self).wf(),
            final(self).layouts() == old(self).layouts(),
            final(self).current() == old(self).current(),
            final(self).running() == old(self).running(),
            final(self).max_widgets() == old(self).max_widgets(),
            (r is Ok) == !has_key(client_ids(old(self).clients()), client_id@),
            r is Ok ==> final(self).clients().len() == old(self).clients().len() + 1
                && final(self).clients().drop_last() == old(self).clients()
                && final(self).clients().last().id@ == client_id@
                && final(self).clients().last().subscribed_widgets@.len() == 0,
            r matches Err(e) ==> e@ == "클라이언트가 이미 연결되어 있습니다: "@ + client_id@
                && final(self).clients() == old(self).clients(),
    {
        let now = unix_time_millis();
        self.connect_websocket_client_at(client_id, now)
    }

    /// Connects a client at `now`; an id already connected is an error.
    pub fn connect_websocket_client_at(&mut self, client_id: String, now: u64) -> (r: Result<
        (),
        String,
    >)
        requires
            old(self).wf(),
        ensures
            final(self).wf(),
            final(self).layouts() == old(self).layouts(),
            final(self).current() == old(self).current(),
            final(self).running() == old(self).running(),
            final(self).max_widgets() == old(self).max_widgets(),
            (r is Ok) == !has_key(client_ids(old(self).clients()), client_id@),
            r is Ok ==> final(self).clients().len() == old(self).clients().len() + 1
                && final(self).clients().drop_last() == old(self).clients()
                && final(self).clients().last().id@ == client_id@
                && final(self).clients().last().connected_at == now
                && final(self).clients().last().last_activity == now
                && final(self).clients().last().subscribed_widgets@.len() == 0,
            r matches Err(e) ==> e@ == "클라이언트가 이미 연결되어 있습니다: "@ + client_id@
                && final(self).clients() == old(self).clients(),
    {
        let k = self.find_client(client_id.as_str());
        if k < self.websocket_clients.len() {
            let e = join3("클라이언트가 이미 연결되어 있습니다: ", client_id.as_str(), "");
            proof {
                reveal_strlit("");
                assert(e@ =~= "클라이언트가 이미 연결되어 있습니다: "@ + client_id@);
            }
            return Err(e);
        }
        let ghost before = self.websocket_clients@;
        let ghost cid = client_id@;
        self.websocket_clients.push(
            WebSocketClient {
                id: client_id,
                connected_at: now,
                last_activity: now,
                subscribed_widgets: Vec::new(),
            },
        );
        proof {
            let ids = client_ids(self.websocket_clients@);
            lemma_first_pos(client_ids(before), cid);
            assert(client_ids(before) =~= ids.drop_last());
            assert(ids[ids.len() - 1] == cid);
            assert forall|i: int, j: int| 0 <= i < j < ids.len() implies ids[i] != ids[j] by {
                assert(ids[i] == client_ids(before)[i]);
                if j < ids.len() - 1 {
                    assert(ids[j] == client_ids(before)[j]);
                }
            }
            assert(self.websocket_clients@.drop_last() =~= before);
        }
        Ok(())
    }

    /// Disconnects the client with id `client_id`; none is an error.
    pub fn disconnect_websocket_client(&mut self, client_id: &str) -> (r: Result<(), String>)
        requires
            old(self).wf(),
        ensures
            final(self).wf(),
            final(self).layouts() == old(self).layouts(),
            final(self).current() == old(self).current(),
            final(self).running() == old(self).running(),
            final(self).max_widgets() == old(self).max_widgets(),
            ({
                let k = first_pos(client_ids(old(self).clients()), client_id@);
                &&& (r is Ok) == (k < old(self).clients().len())
                &&& r is Ok ==> final(self).clients() == old(self).clients().remove(k as int)
                &&& r matches Err(e) ==> e@ == "클라이언트를 찾을 수 없습니다: "@ + client_id@
                    && final(self).clients() == old(self).clients()
            }),
    {
        let k = self.find_client(client_id);
        if k >= self.websocket_clients.len() {
            let e = join3("클라이언트를 찾을 수 없습니다: ", client_id, "");
            proof {
                reveal_strlit("");
                assert(e@ =~= "클라이언트를 찾을 수 없습니다: "@ + client_id@);
            }
            return Err(e);
        }
        let ghost before = self.websocket_clients@;
        self.websocket_clients.remove(k);
        proof {
            let old_ids = client_ids(before);
            let ids = client_ids(self.websocket_clients@);
            assert forall|i: int, j: int| 0 <= i < j < ids.len() implies ids[i] != ids[j] by {
                let i0 = if i < k { i } else { i + 1 };
                let j0 = if j < k { j } else { j + 1 };
                assert(ids[i] == old_ids[i0] && ids[j] == old_ids[j0]);
            }
        }
        Ok(())
    }

    /// The number of connected clients.
    pub fn get_connected_clients_count(&self) -> (r: usize)
        ensures
            r == self.clients().len(),
    {
        self.websocket_clients.len()
    }

    /// Copies of all layouts.
    pub fn get_layouts(&self) -> (r: Vec<DashboardLayout>)
        ensures
            layout_views(r@) == layout_views(self.layouts()),
    {
        let mut out: Vec<DashboardLayout> = Vec::new();
        let n = self.layouts.len();
        let mut i: usize = 0;
        while i < n
            invariant
                n == self.layouts@.len(),
                i <= n,
                layout_views(out@) == layout_views(self.layouts@.take(i as int)),
            decreases n - i,
        {
            let ghost before = out@;
            out.push(self.layouts[i].clone());
            proof {
                assert(layout_views(out@) =~= layout_views(before).push(self.layouts@[i as int]@));
                assert(layout_views(self.layouts@.take(i + 1)) =~= layout_views(
                    self.layouts@.take(i as int),
                ).push(self.layouts@[i as int]@));
            }
            i = i + 1;
        }
        proof {
            assert(self.layouts@.take(n as int) =~= self.layouts@);
        }
        out
    }

    /// The totals: layouts, widgets over all layouts, connected clients, the current
    /// layout, stamped with the time now.
    pub fn get_dashboard_stats(&self) -> (r: DashboardStats)
        requires
            widget_total(self.layouts()) <= usize::MAX,
        ensures
            r.total_layouts == self.layouts().len(),
            r.total_widgets == widget_total(self.layouts()),
            r.connected_clients == self.clients().len(),
            r.active_layout@ == self.current(),
    {
        let n = self.layouts.len();
        let mut total: usize = 0;
        let mut i: usize = 0;
        while i < n
            invariant
                n == self.layouts@.len(),
                i <= n,
                widget_total(self.layouts@) <= usize::MAX,
                total == widget_total(self.layouts@.take(i as int)),
            decreases n - i,
        {
            proof {
                let t = self.layouts@.take(i + 1);
                assert(t.drop_last() =~= self.layouts@.take(i as int));
                lemma_widget_total_prefix(self.layouts@, i + 1);
            }
            total = total + self.layouts[i].widgets.len();
            i = i + 1;
        }
        proof {
            assert(self.layouts@.take(n as int) =~= self.layouts@);
        }
        DashboardStats {
            total_layouts: n,
            total_widgets: total,
            connected_clients: self.websocket_clients.len(),
            active_layout: self.current_layout.clone(),
            last_updated: unix_time_millis(),
        }
    }

    /// Refreshes the current layout at `now`: each widget takes its data from the
    /// provider and `now` as its update time.
    pub fn update_widget_data(&mut self, provider: &DashboardDataProvider, now: u64)
        requires
            old(self).wf(),
        ensures
            final(self).wf(),
            final(self).current() == old(self).current(),
            final(self).clients() == old(self).clients(),
            final(self).running() == old(self).running(),
            final(self).max_widgets() == old(self).max_widgets(),
            final(self).layouts().len() == old(self).layouts().len(),
            ({
                let k = first_pos(layout_ids(old(self).layouts()), old(self).current());
                let l = old(self).layouts()[k as int];
                let nl = final(self).layouts()[k as int];
                &&& forall|j: int| 0 <= j < old(self).layouts().len() && j != k ==> #[trigger] final(self).layouts()[j] == old(self).layouts()[j]
                &&& nl == (DashboardLayout { widgets: nl.widgets, ..l })
                &&& nl.widgets@.len() == l.widgets@.len()
                &&& forall|i: int| 0 <= i < l.widgets@.len() ==> {
                    let w = l.widgets@[i];
                    &&& #[trigger] nl.widgets@[i] == (DashboardWidget {
                        data: nl.widgets@[i].data,
                        last_updated: now,
                        ..w
                    })
                    &&& w.widget_type == WidgetType::PerformanceChart ==> nl.widgets@[i].data
                        == json_array_of(provider.performance())
                    &&& w.widget_type == WidgetType::AlertList ==> nl.widgets@[i].data
                        == json_array_of(provider.alerts())
                    &&& w.widget_type == WidgetType::SystemHealth && provider.health() is Some
                        ==> nl.widgets@[i].data == provider.health().unwrap()
                    &&& w.widget_type == WidgetType::MetricGauge && provider.metrics().contains_key(w.id@)
                        ==> nl.widgets@[i].data == provider.metrics()[w.id@]
                }
            }),
    {
        let k = self.find_layout(self.current_layout.as_str());
        proof {
            lemma_first_pos(layout_ids(self.layouts@), self.current_layout@);
        }
        let ghost before = self.layouts@;
        let ghost ws = self.layouts@[k as int].widgets@;
        let n = self.layouts[k].widgets.len();
        let mut i: usize = 0;
        while i < n
            invariant
                self.websocket_clients == old(self).websocket_clients,
                self.current_layout == old(self).current_layout,
                self.config == old(self).config,
                self.is_running == old(self).is_running,
                before == old(self).layouts@,
                k == first_pos(layout_ids(old(self).layouts()), old(self).current()),
                k < self.layouts@.len(),
                self.layouts@.len() == before.len(),
                n == ws.len(),
                i <= n,
                forall|j: int| 0 <= j < before.len() && j != k ==> #[trigger] self.layouts@[j] == before[j],
                self.layouts@[k as int] == (DashboardLayout { widgets: self.layouts@[k as int].widgets, ..before[k as int] }),
                self.layouts@[k as int].widgets@.len() == n,
                forall|j: int| i <= j < n ==> #[trigger] self.layouts@[k as int].widgets@[j] == ws[j],
                forall|j: int| 0 <= j < i ==> {
                    let w = ws[j];
                    let nw = #[trigger] self.layouts@[k as int].widgets@[j];
                    &&& nw == (DashboardWidget { data: nw.data, last_updated: now, ..w })
                    &&& w.widget_type == WidgetType::PerformanceChart ==> nw.data == json_array_of(provider.performance())
                    &&& w.widget_type == WidgetType::AlertList ==> nw.data == json_array_of(provider.alerts())
                    &&& w.widget_type == WidgetType::SystemHealth && provider.health() is Some ==> nw.data == provider.health().unwrap()
                    &&& w.widget_type == WidgetType::MetricGauge && provider.metrics().contains_key(w.id@) ==> nw.data == provider.metrics()[w.id@]
                },
            decreases n - i,
        {
            let wt = self.layouts[k].widgets[i].widget_type;
            let data = provider.get_widget_data(&wt, self.layouts[k].widgets[i].id.as_str());
            let l = &mut self.layouts[k];
            let w = &mut l.widgets[i];
            w.data = data;
            w.last_updated = now;
            i = i + 1;
        }
        proof {
            assert(layout_ids(self.layouts@) =~= layout_ids(before));
        }
    }
}

pub proof fn lemma_without_widget_same(s: Seq<DashboardWidget>, id: Seq<char>)
    requires
        without_widget(s, id).len() == s.len(),
    ensures
        without_widget(s, id) == s,
    decreases s.len(),
{
    if s.len() > 0 {
        lemma_without_widget_len(s.drop_last(), id);
        lemma_without_widget_same(s.drop_last(), id);
        assert(s.drop_last().push(s.last()) =~= s);
    }
}

pub proof fn lemma_widget_total_prefix(s: Seq<DashboardLayout>, j: int)
    requires
        0 <= j <= s.len(),
    ensures
        widget_total(s.take(j)) <= widget_total(s),
    decreases s.len(),
{
    if j < s.len() {
        lemma_widget_total_prefix(s.drop_last(), j);
        assert(s.drop_last().take(j) =~= s.take(j));
    } else {
        assert(s.take(j) =~= s);
    }
}

/// At most the last `n` items are kept, in order.
pub proof fn law_keep_last_bounded<A>(s: Seq<A>, n: nat)
    ensures
        keep_last(s, n).len() == if s.len() > n { n } else { s.len() },
        forall|i: int| 0 <= i < keep_last(s, n).len() ==> #[trigger] keep_last(s, n)[i] == s[s.len() - keep_last(s, n).len() + i],
{
}

/// Deleting a layout undoes creating it: a layout with a new id other than "default",
/// added and then deleted by that id, leaves the layouts as they were.
pub proof fn law_delete_layout_undoes_create(ls: Seq<DashboardLayout>, layout: DashboardLayout)
    requires
        !has_key(layout_ids(ls), layout.id@),
    ensures
        first_pos(layout_ids(ls.push(layout)), layout.id@) == ls.len(),
        ls.push(layout).remove(ls.len() as int) == ls,
{
    let ids = layout_ids(ls.push(layout));
    lemma_first_pos(layout_ids(ls), layout.id@);
    assert forall|j: int| 0 <= j < ls.len() implies ids[j] != layout.id@ by {
        assert(ids[j] == layout_ids(ls)[j]);
    }
    assert(ids[ls.len() as int] == layout.id@);
    lemma_first_pos_at(ids, layout.id@, ls.len() as int);
    assert(ls.push(layout).remove(ls.len() as int) =~= ls);
}

} // verus!
