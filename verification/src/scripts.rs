//! The scripts injected into the embedded Bilibili page. They read only
//! `currentTime`, `duration`, page HTML and the list and title APIs; never a
//! media source address or a cookie.

use vstd::prelude::*;

verus! {

/// The list API that the capture script pages through.
pub const BILI_MEDIALIST_API: &'static str = "https://api.bilibili.com/x/v2/medialist/resource/list";

/// Installed in every page of the embedded view: blocks the page's own
/// autoplay, reports page loads and hooks `<video>` events.
pub const BRIDGE_INIT: &'static str = r#"(function(){
  if (window.__BILI_BRIDGE__) return; window.__BILI_BRIDGE__ = true;
  function allowedHost(h){ return h==='www.bilibili.com'||h==='bilibili.com'||h==='passport.bilibili.com'||h.endsWith('.bilibili.com'); }
  function emit(event, payload){
    try { window.__TAURI_INTERNALS__.invoke('plugin:event|emit', { event: event, payload: payload }); } catch(e){}
  }
  if (window.location.protocol !== 'https:' || !allowedHost(window.location.hostname)) return;
  if (!window.__BILI_LIST_PLAYER_AUTOPLAY_GUARD__) {
    window.__BILI_LIST_PLAYER_AUTOPLAY_GUARD__ = true;
    window.__BILI_LIST_PLAYER_PLAY_ALLOWANCE__ = 0;
    var nativePlay = HTMLMediaElement.prototype.play;
    HTMLMediaElement.prototype.play = function(){
      if (window.__BILI_LIST_PLAYER_PLAY_ALLOWANCE__ > 0) {
        window.__BILI_LIST_PLAYER_PLAY_ALLOWANCE__--;
        return nativePlay.apply(this, arguments);
      }
      try { this.pause(); } catch(e) {}
      return Promise.reject(new DOMException('Autoplay disabled by BiliListPlayer', 'NotAllowedError'));
    };
    function disableAutoplay(node) {
      if (node && node instanceof HTMLMediaElement) node.autoplay = false;
    }
    document.querySelectorAll('video,audio').forEach(disableAutoplay);
    new MutationObserver(function(records){
      records.forEach(function(record){
        for (var i=0;i<record.addedNodes.length;i++) {
          var node = record.addedNodes[i];
          disableAutoplay(node);
          if (node && node.querySelectorAll) node.querySelectorAll('video,audio').forEach(disableAutoplay);
        }
      });
    }).observe(document.documentElement, { childList: true, subtree: true });
  }
  emit('bili://page-loaded', { url: window.location.href });
  var SELECTORS = 'bwp-video, video, .bpx-player-container video, .bpx-player-video-wrap video, .bilibili-player video';
  var deadline = Date.now() + 60000;
  function hookVideo(v){
    if (v.__BILI_HOOKED__) return; v.__BILI_HOOKED__ = true;
    ['play','pause','ended','error','timeupdate'].forEach(function(t){
      v.addEventListener(t, function(){
        var payload = { type: t, itemId: window.location.pathname, positionSeconds: v.currentTime || 0 };
        if (isFinite(v.duration) && v.duration > 0) payload.durationSeconds = v.duration;
        emit('bili://video-event', payload);
      });
    });
    // DASH 流尾部未缓冲时原生 ended 可能不触发，用 timeupdate 兜底：接近末尾即补发 ended，
    // 与原生 ended 去重（__BILI_ENDING__）。重新播放时复位标志。
    v.addEventListener('timeupdate', function(){
      if (isFinite(v.duration) && v.duration > 0 && (v.duration - (v.currentTime || 0)) < 0.5 && !v.__BILI_ENDING__) {
        v.__BILI_ENDING__ = true;
        emit('bili://video-event', { type: 'ended', itemId: window.location.pathname, positionSeconds: v.currentTime || 0, durationSeconds: v.duration });
      }
    });
    v.addEventListener('play', function(){ v.__BILI_ENDING__ = false; });
  }
  function tryHook(){
    var nodes = document.querySelectorAll(SELECTORS);
    for (var i=0;i<nodes.length;i++) hookVideo(nodes[i]);
    if (Date.now() < deadline) setTimeout(tryHook, 500);
  }
  new MutationObserver(function(records){
    records.forEach(function(record){
      for (var i=0;i<record.addedNodes.length;i++) {
        var node = record.addedNodes[i];
        if (node && node.matches && node.matches(SELECTORS)) hookVideo(node);
        if (node && node.querySelectorAll) {
          var videos = node.querySelectorAll(SELECTORS);
          for (var j=0;j<videos.length;j++) hookVideo(videos[j]);
        }
      }
    });
  }).observe(document.documentElement, { childList: true, subtree: true });
  if (document.readyState === 'loading') document.addEventListener('DOMContentLoaded', tryHook);
  else tryHook();
})();"#;

/// Collects the items of a list (or of a video's collection or parts) and
/// reports them as anchor HTML; `__SOURCE__`, `__REQ__` and
/// `__BILI_MEDIALIST_API__` are filled in by `capture_script`.
pub const CAPTURE_SCRIPT_TEMPLATE: &'static str = r#"(function(){
  var SOURCE = '__SOURCE__';
  var REQ = '__REQ__';
  function emit(event, payload){ try { window.__TAURI_INTERNALS__.invoke('plugin:event|emit', { event: event, payload: payload }); } catch(e){} }
  function escapeHtml(value){
    return String(value || '').replace(/[&<>"']/g, function(ch){
      return {'&':'&amp;','<':'&lt;','>':'&gt;','"':'&quot;',"'":'&#39;'}[ch];
    });
  }
  function itemAnchor(item){
    var id = item.bv_id || item.bvid || '';
    if (!id) return '';
    return '<a href="/video/' + encodeURIComponent(id) + '">' + escapeHtml(item.title) + '</a>';
  }
  async function run(){
    var html = document.documentElement.outerHTML;
    var state = window.__INITIAL_STATE__ || {};
    var playlist = state.playlist || {};
    var pageItems = Array.isArray(state.resourceList) ? state.resourceList.slice() : [];
    var listTotal = Number(state.listTotal || (state.mediaListInfo && state.mediaListInfo.media_count) || pageItems.length);
    var url = new URL(SOURCE);
    var listMatch = url.pathname.match(/^\/list\/(ml)?(\d+)/);
    var isModernMediaList = Boolean(listMatch && listMatch[1] === 'ml');
    var playlistId = String(playlist.id || (listMatch && listMatch[2]) || '');
    var playlistType = Number(playlist.type || (isModernMediaList ? 3 : 1));
    var listTitle = String((state.mediaListInfo && state.mediaListInfo.title) || (playlist && playlist.title) || '');
    var isVideoPage = /\/video\//.test(new URL(SOURCE).pathname);
    if (isVideoPage) {
      // 分P 视频（多 P 单 BV，无 ugc_season）：每个 P 没有独立 BV，?p=N 是唯一能直接播该 P
      // 的稳定链接，即每首歌的"真实 url"。每个 ?p=N 当独立条目，播放=整页导航到 ?p=N，
      // B 站原生即播该 P，不挂钩 B 站分P SPA 状态机。合集（ugc_season）/单视频（pages≤1）
      // 不进此支路，fall-through 到下面已有 pod 逻辑。
      var vd = state.videoData || {};
      var pages = Array.isArray(vd.pages) ? vd.pages : [];
      if (!vd.ugc_season && pages.length > 1) {
        var bvid = String(vd.bvid || state.bvid || '');
        listTitle = String(vd.title || listTitle || '');
        html = pages.map(function(pg){
          var pn = Number(pg.page) || 1;
          var part = String(pg.part || ('P' + pn));
          return '<a href="/video/' + encodeURIComponent(bvid) + '/?p=' + pn + '">' + escapeHtml(part) + '</a>';
        }).join('');
        emit('bili://capture-html', { sourceUrl: SOURCE, requestId: REQ, listTitle: listTitle, html: html });
        return;
      }
      var podTitle = document.querySelector('.video-pod__header .title, .video-pod__head .title, .video-pod__header .left .title');
      if (podTitle) listTitle = (podTitle.textContent || '').trim();
      var podItems = Array.from(document.querySelectorAll('.video-pod__item[data-key]'));
      if (podItems.length) {
        html = podItems.map(function(node){
          var id = node.getAttribute('data-key') || '';
          var titleNode = node.querySelector('.title-txt, .title');
          var title = titleNode ? (titleNode.getAttribute('title') || titleNode.textContent || '').trim() : '';
          return '<a href="/video/' + encodeURIComponent(id) + '">' + escapeHtml(title) + '</a>';
        }).join('');
      }
      emit('bili://capture-html', { sourceUrl: SOURCE, requestId: REQ, listTitle: listTitle, html: html });
      return;
    }
    try {
      var cursorOid = url.searchParams.get('oid') || playlistId;
      var cursorBvid = url.searchParams.get('bvid') || '';
      var cursorStartKey = '';
      var fetched = [];
      var fetchedIds = new Set();
      var seenCursors = new Set();
      var hasMore = true;
      var pageCount = 0;
      var deadline = Date.now() + 17000;
      while (hasMore) {
        if (++pageCount > 1000) throw new Error('列表分页过多');
        var cursorKey = cursorStartKey || (cursorOid + '|' + cursorBvid);
        if (seenCursors.has(cursorKey)) throw new Error('分页游标未前进');
        seenCursors.add(cursorKey);
        var params = new URLSearchParams({
          type: String(playlistType), otype: '2', biz_id: playlistId,
          oid: cursorOid, bvid: cursorBvid, with_current: fetched.length === 0 ? 'true' : 'false',
          mobi_app: 'web', ps: '20', direction: 'false', sort_field: '1', tid: '0', desc: 'true'
        });
        if (cursorStartKey) params.set('start_key', cursorStartKey);
        var remaining = deadline - Date.now();
        if (remaining <= 0) throw new Error('完整列表解析超时');
        var controller = new AbortController();
        var requestTimer = setTimeout(function(){ controller.abort(); }, Math.min(8000, remaining));
        var response;
        try {
          response = await fetch('__BILI_MEDIALIST_API__?' + params.toString(), {
            credentials: 'include', signal: controller.signal
          });
        } finally {
          clearTimeout(requestTimer);
        }
        if (!response.ok) throw new Error('HTTP ' + response.status);
        var payload = await response.json();
        if (payload.code !== 0 || !payload.data) throw new Error(payload.message || '列表分页接口失败');
        var batch = Array.isArray(payload.data.media_list) ? payload.data.media_list : [];
        hasMore = Boolean(payload.data.has_more);
        if (batch.length === 0) {
          if (hasMore) throw new Error('列表分页返回空页');
          break;
        }
        batch.forEach(function(item){
          var itemId = String(item.bv_id || item.bvid || item.id || item.oid || '');
          if (itemId && !fetchedIds.has(itemId)) { fetchedIds.add(itemId); fetched.push(item); }
        });
        listTotal = Number(payload.data.total_count || listTotal);
        var nextStartKey = String(payload.data.next_start_key || '');
        if (nextStartKey) {
          cursorStartKey = nextStartKey;
          cursorOid = '';
          cursorBvid = '';
          continue;
        }
        var last = batch[batch.length - 1];
        cursorOid = String(last.id || last.oid || '');
        cursorBvid = String(last.bv_id || last.bvid || '');
      }
      pageItems = fetched;
    } catch(e) {
      emit('bili://capture-html', { sourceUrl: SOURCE, requestId: REQ, listTitle: listTitle, error: String(e && e.message ? e.message : e) });
      return;
    }
    html = pageItems.map(itemAnchor).join('');
    emit('bili://capture-html', { sourceUrl: SOURCE, requestId: REQ, listTitle: listTitle, html: html });
  }
  function wait(){
    if (document.readyState !== 'complete') { setTimeout(wait, 100); return; }
    var deadline = Date.now() + 8000;
    (function poll(){
      if (document.querySelector('a[href*="/video/"]') || Date.now() > deadline) run();
      else setTimeout(poll, 200);
    })();
  }
  wait();
})();"#;

/// Fetches the title of one video from the view API; `__BVID__` and `__REQ__`
/// are filled in by `video_meta_script`.
pub const VIDEO_META_SCRIPT_TEMPLATE: &'static str = r#"(function(){
  var BVID = '__BVID__';
  var REQ = '__REQ__';
  function emit(event, payload){ try { window.__TAURI_INTERNALS__.invoke('plugin:event|emit', { event: event, payload: payload }); } catch(e){} }
  async function run(){
    try {
      var controller = new AbortController();
      var timer = setTimeout(function(){ controller.abort(); }, 8000);
      var response;
      try {
        response = await fetch('https://api.bilibili.com/x/web-interface/view?bvid=' + encodeURIComponent(BVID), {
          credentials: 'include', signal: controller.signal
        });
      } finally { clearTimeout(timer); }
      if (!response.ok) throw new Error('HTTP ' + response.status);
      var payload = await response.json();
      if (payload.code !== 0 || !payload.data) throw new Error(payload.message || '视频信息接口失败');
      var title = String((payload.data.title || '')).trim();
      if (!title) throw new Error('视频无标题');
      emit('bili://video-meta', { requestId: REQ, bvid: String(payload.data.bvid || BVID), title: title });
    } catch(e) {
      emit('bili://video-meta', { requestId: REQ, error: String(e && e.message ? e.message : e) });
    }
  }
  run();
})();"#;

/// Records and switches off the page's own auto-next and autoplay settings,
/// and installs their restoration.
pub const PLAYBACK_SETTINGS_SCRIPT: &'static str = r#"(function(){
  var KEY = '__BILI_LIST_PLAYER_PLAYBACK_SETTINGS__';
  var labels = {
    autoNext: ['自动切集'],
    autoPlay: ['自动开播', '自动播放']
  };
  function textOf(node){
    var parent = node && node.parentElement;
    return ((node && (node.innerText || node.textContent || '')) + ' ' +
      (node && (node.getAttribute('aria-label') || node.getAttribute('title') || '')) + ' ' +
      (parent && (parent.innerText || parent.textContent || ''))).replace(/\s+/g, '');
  }
  function findControl(names){
    var nodes = document.querySelectorAll('input[type="checkbox"],[role="switch"],[role="checkbox"],button,[class*="setting"]');
    for (var i=0;i<nodes.length;i++) {
      var text = textOf(nodes[i]);
      for (var j=0;j<names.length;j++) if (text.indexOf(names[j]) >= 0) return nodes[i];
    }
    return null;
  }
  function isOn(node){
    if (!node) return null;
    if (typeof node.checked === 'boolean') return node.checked;
    var aria = node.getAttribute('aria-checked');
    if (aria === 'true' || aria === 'false') return aria === 'true';
    var cls = (' ' + (node.className || '') + ' ' + (node.parentElement && node.parentElement.className || '') + ' ').toLowerCase();
    if (/\b(active|on|checked|enabled|open)\b/.test(cls)) return true;
    if (/\b(off|unchecked|disabled|close|closed)\b/.test(cls)) return false;
    return null;
  }
  function clickIfNeeded(node, desired){
    var current = isOn(node);
    if (current !== null && current !== desired) node.click();
  }
  function readState(){
    try { return JSON.parse(sessionStorage.getItem(KEY) || 'null'); } catch(e) { return null; }
  }
  function writeState(state){
    try { sessionStorage.setItem(KEY, JSON.stringify(state)); } catch(e) {}
  }
  function disable(){
    var state = readState() || { captured: {}, original: {} };
    ['autoNext','autoPlay'].forEach(function(name){
      var node = findControl(labels[name]);
      if (!node) return;
      var current = isOn(node);
      if (!state.captured[name] && current !== null) {
        state.captured[name] = true;
        state.original[name] = current;
      }
      clickIfNeeded(node, false);
    });
    if (Object.keys(state.captured).length) writeState(state);
  }
  function restore(){
    var state = readState();
    if (!state) return;
    ['autoNext','autoPlay'].forEach(function(name){
      if (!state.captured[name]) return;
      var node = findControl(labels[name]);
      if (node) clickIfNeeded(node, state.original[name]);
    });
  }
  window.__BILI_LIST_PLAYER_RESTORE_SETTINGS__ = restore;
  if (!window.__BILI_LIST_PLAYER_SETTINGS_HOOKED__) {
    window.__BILI_LIST_PLAYER_SETTINGS_HOOKED__ = true;
    window.addEventListener('beforeunload', restore);
  }
  var deadline = Date.now() + 10000;
  (function poll(){
    disable();
    if (Date.now() < deadline) setTimeout(poll, 250);
  })();
})();"#;

/// Shared helpers of the control scripts: waits for the `<video>`, hooks its
/// events, plays with a muted fallback, pauses and seeks.
pub const PLAY_CONTROL_HELPERS: &'static str = r#"(function(){
  // 事件上报：与 BRIDGE_INIT 的 emit 同实现。控制脚本独立 eval，不复用 BRIDGE_INIT 作用域。
  function emit(event, payload){
    try { window.__TAURI_INTERNALS__.invoke('plugin:event|emit', { event: event, payload: payload }); } catch(e){}
  }
  // hook 真 <video> 的事件（play/pause/ended/error/timeupdate）→ emit bili://video-event。
  // 与 BRIDGE_INIT 的 hookVideo 同逻辑，共用 __BILI_HOOKED__ 守卫互斥。关键修复：
  // BRIDGE_INIT 的 document 级 MutationObserver 抓不到 <bwp-video> 内（疑似 Shadow DOM）的
  // 真 <video> → 事件永不发到 Rust → 前端拿不到 duration（进度条 disabled）且 ended 不触发切歌。
  // 控制脚本的 pickVideo 能找到该 <video>，故在此 hook，确保事件上报可靠。
  // 只读 currentTime/duration（合规），不读媒体流地址或 cookie。
  function ensureHooked(v){
    if (!v || v.tagName !== 'VIDEO' || v.__BILI_HOOKED__) return;
    v.__BILI_HOOKED__ = true;
    ['play','pause','ended','error','timeupdate'].forEach(function(t){
      v.addEventListener(t, function(){
        var p = { type: t, itemId: window.location.pathname, positionSeconds: v.currentTime || 0 };
        if (isFinite(v.duration) && v.duration > 0) p.durationSeconds = v.duration;
        emit('bili://video-event', p);
      });
    });
    // DASH 流尾部未缓冲时原生 ended 可能不触发，用 timeupdate 兜底（与 BRIDGE_INIT 同）。
    v.addEventListener('timeupdate', function(){
      if (isFinite(v.duration) && v.duration > 0 && (v.duration - (v.currentTime || 0)) < 0.5 && !v.__BILI_ENDING__) {
        v.__BILI_ENDING__ = true;
        emit('bili://video-event', { type: 'ended', itemId: window.location.pathname, positionSeconds: v.currentTime || 0, durationSeconds: v.duration });
      }
    });
    v.addEventListener('play', function(){ v.__BILI_ENDING__ = false; });
  }
  // B 站可能用 <bwp-video> 自定义元素包裹真实 <video>，且 SPA 切歌瞬间会有多个 <video>
  // （旧播放器未销毁 + 新的在建）。querySelector 第一个未必是当前可见的那个 → 对它设
  // currentTime/play 会静默失败。故遍历取「可见且有尺寸、readyState>=1」的那个。
  function pickVideo(){
    var all = document.querySelectorAll('bwp-video, .bpx-player-container video, .bpx-player-video-wrap video, .bilibili-player video, video');
    var fallback = null;
    for (var i=0;i<all.length;i++){
      var v = all[i];
      // 只控制真正的 <video>（HTMLVideoElement）。<bwp-video> 是 B 站自定义元素，没有
      // HTMLMediaElement 的 play()/readyState/videoWidth/currentTime，操作它无法控制播放。
      // 早期页面 <bwp-video> 先于内部 <video> 出现，曾作为 fallback 被返回 → v.play() 抛错
      // 或无效 → 加载后不自动开播（用户却可手动按播放按钮开播，因为那时 <video> 已就绪）。
      // bwp-video 留在 selector 仅供 BRIDGE_INIT hook 事件，控制时一律跳过。
      if (!v || v.tagName !== 'VIDEO') continue;
      if (!fallback) fallback = v;
      // 优先可见（offsetParent 非 null 且有视频尺寸）且已就绪的元素。
      if (v.readyState >= 1 && v.videoWidth > 0 && v.offsetParent !== null) return v;
    }
    return fallback;
  }
  // B 站播放/暂停按钮（新版 bpx 与旧版 bilibili-player 两套选择器）。
  function pickPlayBtn(){
    return document.querySelector('.bpx-player-ctrl-play') ||
      document.querySelector('.bilibili-player-video-btn-start') ||
      document.querySelector('.bpx-player-video-btn-start') ||
      document.querySelector('[aria-label="播放"]') || document.querySelector('[aria-label="暂停"]');
  }
  function oncePlay(v){
    if (!v || typeof v.play !== 'function') return Promise.resolve();
    window.__BILI_LIST_PLAYER_PLAY_ALLOWANCE__ = (window.__BILI_LIST_PLAYER_PLAY_ALLOWANCE__||0)+1;
    return v.play().then(function(){}).catch(function(e){
      if (e && e.name === 'NotAllowedError') {
        v.muted = true;
        window.__BILI_LIST_PLAYER_PLAY_ALLOWANCE__ = (window.__BILI_LIST_PLAYER_PLAY_ALLOWANCE__||0)+1;
        v.play().catch(function(){});
        if (!window.__BILI_UNMUTE_PENDING__) {
          window.__BILI_UNMUTE_PENDING__ = true;
          function unmute(){ try { v.muted = false; } catch(_){} window.__BILI_UNMUTE_PENDING__ = false; window.removeEventListener('pointerdown', unmute, true); window.removeEventListener('keydown', unmute, true); }
          window.addEventListener('pointerdown', unmute, true);
          window.addEventListener('keydown', unmute, true);
        }
      }
    });
  }
  // play() 可能静默成功但视频未真正开播（B 站播放器遮罩/占位 video），故主动播放并复核重试。
  // 关键：B 站「自动开播」被我方禁用后，页面加载完 <video> 未必有流（readyState=0、无 src）→
  // v.play() 以非 NotAllowedError 失败、静音降级不触发 → 卡住。重试按 readyState 分诊：
  //   readyState<1（必为暂停、无流）：点 B 站自己的播放按钮触发它 fetch playurl 并设 src
  //     （src 设置发生在 B 站内部 play() 之前；我方守卫会拦截 B 站那次 play()，但 src 已就绪）。
  //     仅在 readyState<1 时点按钮，避免「播放中点按钮」toggle 成暂停的竞态。
  //   readyState>=1（已有流）：oncePlay 即可（守卫 allowance+1；浏览器拦则静音降级）。
  // 每轮重新 pickVideo：bpx-player SPA 切歌可能换 <video> 元素，旧引用会失效。
  function playV(v){
    function bootstrap(cur){
      if (!cur || typeof cur.play !== 'function') return;
      ensureHooked(cur); // 确保找到的 <video> 已 hook 事件，Rust/前端才能收到 duration/ended。
      if (cur.readyState < 1) {
        var btn = pickPlayBtn();
        if (btn) { try { btn.click(); } catch(_){} }
      }
      oncePlay(cur);
    }
    bootstrap(v);
    var tries = 0;
    setTimeout(function check(){
      if (tries++ > 12) return; // ~12×800ms≈9.6s
      var cur = pickVideo() || v;
      if (!cur || typeof cur.play !== 'function') { setTimeout(check, 800); return; }
      ensureHooked(cur); // SPA 切歌可能换 <video> 元素，重 hook 新的。
      if (cur.paused) {
        bootstrap(cur);
        setTimeout(check, 800);
      } else if ((cur.currentTime || 0) <= 0 && cur.readyState < 3) {
        // 播放中但卡在 0（缓冲中）：幂等 play，不点按钮以免 toggle 成暂停。
        oncePlay(cur);
        setTimeout(check, 800);
      }
    }, 800);
  }
  function pauseV(v){
    try { v.pause(); } catch(_){}
    // 直接 pause 失败时点 B 站暂停按钮兜底。
    var btn = pickPlayBtn();
    if (btn && !v.paused) { try { btn.click(); } catch(_){} }
  }
  function poll(fn){ var deadline = Date.now() + 10000; (function step(){ var v = pickVideo(); if (v) { ensureHooked(v); fn(v); return; } if (Date.now() < deadline) setTimeout(step, 250); })(); }
  // seek：用 readyState>=2（HAVE_CURRENT_DATA）确保 duration 已就绪，否则 Math.min(max(p,0),NaN)
  // 得 NaN 会让 currentTime=NaN 静默失败（「点了没反应」根因）。未就绪则等 loadedmetadata 再 seek，
  // 并在 500ms 后复核：若位置未到目标则重试一次（DASH 流缓冲延迟兜底）。
  // onDone：可选完成回调，在首次 doSeek 执行后触发一次（复核重试不重复触发）。seek_and_play
  // 借此让 play 在 seek 到位后再跑，避免 readyState<2 时 play 先以旧位置开播、seek 随后才拉回 0。
  function seekTo(v, p, onDone){
    var done = false;
    var fire = function(){ if (!done) { done = true; if (typeof onDone === 'function') onDone(); } };
    var doSeek = function(){
      if (isFinite(v.duration) && v.duration > 0) p = Math.min(Math.max(p, 0), v.duration);
      try { v.currentTime = p; } catch(_){}
      fire();
    };
    if (v.readyState >= 2) doSeek();
    else v.addEventListener('loadedmetadata', doSeek, { once: true });
    setTimeout(function(){
      // 500ms 复核：若位置偏差大且已就绪则重 seek 一次；无论就绪与否，若 onDone 仍未触发
      // （loadedmetadata 迟迟不来、readyState 卡 <2）则兜底触发 onDone，避免 play 永不执行
      // （双击切歌后不播放的回归根因）。
      if (Math.abs((v.currentTime || 0) - p) > 1.5) {
        if (v.readyState >= 2) doSeek();
      }
      fire();
    }, 500);
  }
  window.__BILI_CTRL__ = { play: playV, pause: pauseV, poll: poll, seekTo: seekTo, pickVideo: pickVideo, pickPlayBtn: pickPlayBtn };
})();"#;

/// Restores the page settings recorded by [`PLAYBACK_SETTINGS_SCRIPT`].
pub const RESTORE_PLAYBACK_SETTINGS_SCRIPT: &'static str = "window.__BILI_LIST_PLAYER_RESTORE_SETTINGS__ && window.__BILI_LIST_PLAYER_RESTORE_SETTINGS__();";

} // verus!
