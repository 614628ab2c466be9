//! Labels of well-known packages, shipped with the library so that names
//! show before any lookup.
use vstd::prelude::*;
use crate::transport::owned;

verus! {

fn put(m: &mut Vec<(String, String)>, package: &str, label: &str)
    ensures
        final(m)@.len() == old(m)@.len() + 1,
        final(m)@.last().0@ == package@,
        final(m)@.last().1@ == label@,
        final(m)@.drop_last() == old(m)@,
{
    m.push((owned(package), owned(label)));
    assert(m@.drop_last() =~= old(m)@);
}

/// The shipped labels, as (package name, label) pairs.
pub fn get_seed_data() -> (m: Vec<(String, String)>)
{
    let mut m: Vec<(String, String)> = Vec::new();
    // GOOGLE APPS & SERVICES
    put(&mut m, "com.android.vending", "Google Play Store");
    put(&mut m, "com.google.android.gms", "Google Play Services");
    put(&mut m, "com.google.android.gsf", "Google Services Framework");
    put(&mut m, "com.google.android.webview", "Android System WebView");
    put(&mut m, "com.google.android.packageinstaller", "Package Installer");
    put(&mut m, "com.google.android.permissioncontroller", "Permission Controller");
    put(&mut m, "com.android.chrome", "Google Chrome");
    put(&mut m, "com.google.android.youtube", "YouTube");
    put(&mut m, "com.google.android.gm", "Gmail");
    put(&mut m, "com.google.android.apps.maps", "Google Maps");
    put(&mut m, "com.google.android.apps.photos", "Google Photos");
    put(&mut m, "com.google.android.apps.docs", "Google Drive");
    put(&mut m, "com.google.android.keep", "Google Keep");
    put(&mut m, "com.google.android.calendar", "Google Calendar");
    put(&mut m, "com.google.android.deskclock", "Clock");
    put(&mut m, "com.google.android.calculator", "Calculator");
    put(&mut m, "com.google.android.contacts", "Contacts");
    put(&mut m, "com.google.android.dialer", "Phone");
    put(&mut m, "com.google.android.apps.messaging", "Messages");
    put(&mut m, "com.google.android.inputmethod.latin", "Gboard");
    put(&mut m, "com.google.android.apps.googleassistant", "Google Assistant");
    put(&mut m, "com.google.android.googlequicksearchbox", "Google App");
    put(&mut m, "com.google.android.apps.walletnfcrel", "Google Wallet");
    put(&mut m, "com.google.android.apps.tachyon", "Google Meet");
    put(&mut m, "com.google.android.music", "Google Play Music");
    put(&mut m, "com.google.android.videos", "Google TV");
    put(&mut m, "com.google.android.apps.books", "Google Play Books");
    put(&mut m, "com.google.android.apps.magazines", "Google News");
    put(&mut m, "com.google.earth", "Google Earth");
    put(&mut m, "com.google.android.apps.translate", "Google Translate");
    put(&mut m, "com.google.android.apps.fitness", "Google Fit");
    put(&mut m, "com.google.android.apps.podcasts", "Google Podcasts");
    put(&mut m, "com.google.android.apps.wellbeing", "Digital Wellbeing");
    put(&mut m, "com.google.android.projection.gearhead", "Android Auto");
    put(&mut m, "com.google.ar.core", "Google Play Services for AR");
    put(&mut m, "com.google.android.apps.nbu.files", "Files by Google");
    put(&mut m, "com.google.android.apps.youtube.music", "YouTube Music");
    put(&mut m, "com.google.android.apps.youtube.kids", "YouTube Kids");
    put(&mut m, "com.google.android.apps.youtube.creator", "YouTube Studio");
    // SAMSUNG (ONE UI) SYSTEM APPS
    put(&mut m, "com.sec.android.app.launcher", "Samsung One UI Home");
    put(&mut m, "com.samsung.android.incallui", "Samsung InCallUI");
    put(&mut m, "com.samsung.android.dialer", "Samsung Phone");
    put(&mut m, "com.samsung.android.messaging", "Samsung Messages");
    put(&mut m, "com.sec.android.app.camera", "Samsung Camera");
    put(&mut m, "com.sec.android.gallery3d", "Samsung Gallery");
    put(&mut m, "com.sec.android.app.myfiles", "Samsung My Files");
    put(&mut m, "com.samsung.android.calendar", "Samsung Calendar");
    put(&mut m, "com.sec.android.app.clockpackage", "Samsung Clock");
    put(&mut m, "com.sec.android.app.popupcalculator", "Samsung Calculator");
    put(&mut m, "com.samsung.android.app.notes", "Samsung Notes");
    put(&mut m, "com.samsung.android.app.reminder", "Samsung Reminder");
    put(&mut m, "com.sec.android.app.voicenote", "Samsung Voice Recorder");
    put(&mut m, "com.samsung.android.email.provider", "Samsung Email");
    put(&mut m, "com.samsung.android.app.contacts", "Samsung Contacts");
    put(&mut m, "com.samsung.android.lool", "Samsung Device Care");
    put(&mut m, "com.samsung.android.app.smartswitch", "Samsung Smart Switch");
    put(&mut m, "com.samsung.android.oneconnect", "Samsung SmartThings");
    put(&mut m, "com.samsung.android.app.watchmanager", "Galaxy Wearable");
    put(&mut m, "com.samsung.android.samsungpass", "Samsung Pass");
    put(&mut m, "com.samsung.android.samsungpassautofill", "Samsung Pass Autofill");
    put(&mut m, "com.samsung.android.authframework", "Samsung Auth Framework");
    put(&mut m, "com.samsung.android.spay", "Samsung Pay");
    put(&mut m, "com.samsung.android.scloud", "Samsung Cloud");
    put(&mut m, "com.samsung.android.themestore", "Galaxy Themes");
    put(&mut m, "com.sec.android.app.samsungapps", "Galaxy Store");
    put(&mut m, "com.samsung.android.game.gamehome", "Samsung Game Launcher");
    put(&mut m, "com.samsung.android.game.gametools", "Samsung Game Tools");
    put(&mut m, "com.samsung.android.game.gos", "Game Optimizing Service");
    put(&mut m, "com.sec.android.app.shealth", "Samsung Health");
    put(&mut m, "com.samsung.android.bixby.agent", "Bixby Voice");
    put(&mut m, "com.samsung.android.bixby.service", "Bixby Service");
    put(&mut m, "com.samsung.android.app.settings.bixby", "Bixby Settings");
    put(&mut m, "com.samsung.android.visionintelligence", "Bixby Vision");
    put(&mut m, "com.samsung.android.arzone", "AR Zone");
    put(&mut m, "com.samsung.android.app.tips", "Samsung Tips");
    put(&mut m, "com.sec.android.daemonapp", "Samsung Weather");
    put(&mut m, "com.samsung.android.app.cocktailbarservice", "Edge Panels");
    put(&mut m, "com.samsung.android.app.taskedge", "Tasks Edge");
    put(&mut m, "com.samsung.android.app.appsedge", "Apps Edge");
    put(&mut m, "com.samsung.android.app.clipboardedge", "Clipboard Edge");
    put(&mut m, "com.samsung.android.service.peoplestripe", "People Edge");
    put(&mut m, "com.samsung.android.app.simplesharing", "Link Sharing");
    put(&mut m, "com.samsung.knox.securefolder", "Secure Folder");
    put(&mut m, "com.samsung.android.kgclient", "Knox Guard");
    put(&mut m, "com.sec.enterprise.knox.attestation", "Knox Attestation");
    put(&mut m, "com.samsung.klmsagent", "Knox License Agent");
    put(&mut m, "com.samsung.android.kids installer", "Samsung Kids");
    // XIAOMI (MIUI / HYPEROS) SYSTEM APPS
    put(&mut m, "com.miui.home", "POCO Launcher / MIUI Home");
    put(&mut m, "com.miui.securitycenter", "MIUI Security");
    put(&mut m, "com.miui.cleanmaster", "MIUI Cleaner");
    put(&mut m, "com.miui.gallery", "MIUI Gallery");
    put(&mut m, "com.miui.player", "MIUI Music");
    put(&mut m, "com.miui.videoplayer", "MIUI Video");
    put(&mut m, "com.miui.notes", "Xiaomi Notes");
    put(&mut m, "com.miui.weather2", "Xiaomi Weather");
    put(&mut m, "com.miui.calculator", "Xiaomi Calculator");
    put(&mut m, "com.android.fileexplorer", "Xiaomi File Manager");
    put(&mut m, "com.miui.compass", "Compass");
    put(&mut m, "com.miui.screenrecorder", "Screen Recorder");
    put(&mut m, "com.miui.huanji", "Mi Mover");
    put(&mut m, "com.xiaomi.midrop", "ShareMe");
    put(&mut m, "com.xiaomi.mipicks", "GetApps (Mi App Store)");
    put(&mut m, "com.miui.cloudservice", "Xiaomi Cloud");
    put(&mut m, "com.miui.cloudbackup", "Xiaomi Cloud Backup");
    put(&mut m, "com.miui.micloudsync", "Xiaomi Cloud Sync");
    put(&mut m, "com.xiaomi.account", "Xiaomi Account");
    put(&mut m, "com.miui.hybrid", "Quick Apps");
    put(&mut m, "com.miui.analytics", "MIUI Analytics");
    put(&mut m, "com.miui.msa.global", "MSA (MIUI Ad Services)");
    put(&mut m, "com.miui.system", "MIUI System Components");
    put(&mut m, "com.miui.rom", "MIUI ROM");
    put(&mut m, "com.xiaomi.scanner", "Scanner");
    put(&mut m, "com.mi.android.globalminlus", "Mi Browser");
    put(&mut m, "com.miui.daemon", "MIUI Daemon");
    put(&mut m, "com.miui.powerkeeper", "Battery Saver");
    put(&mut m, "com.miui.guardprovider", "Guard Provider");
    // SOCIAL MEDIA
    put(&mut m, "com.facebook.katana", "Facebook");
    put(&mut m, "com.facebook.orca", "Messenger");
    put(&mut m, "com.facebook.lite", "Facebook Lite");
    put(&mut m, "com.facebook.mlite", "Messenger Lite");
    put(&mut m, "com.instagram.android", "Instagram");
    put(&mut m, "com.whatsapp", "WhatsApp");
    put(&mut m, "com.whatsapp.w4b", "WhatsApp Business");
    put(&mut m, "com.twitter.android", "X (Twitter)");
    put(&mut m, "com.zhiliaoapp.musically", "TikTok");
    put(&mut m, "com.ss.android.ugc.trill", "TikTok (Asia)");
    put(&mut m, "com.snapchat.android", "Snapchat");
    put(&mut m, "com.linkedin.android", "LinkedIn");
    put(&mut m, "com.pinterest", "Pinterest");
    put(&mut m, "com.reddit.frontpage", "Reddit");
    put(&mut m, "com.discord", "Discord");
    put(&mut m, "org.telegram.messenger", "Telegram");
    put(&mut m, "org.telegram.plus", "Plus Messenger");
    put(&mut m, "com.viber.voip", "Viber");
    put(&mut m, "jp.naver.line.android", "LINE");
    put(&mut m, "com.tencent.mm", "WeChat");
    put(&mut m, "com.skype.raider", "Skype");
    put(&mut m, "com.microsoft.teams", "Microsoft Teams");
    put(&mut m, "com.zoom.videomeetings", "Zoom");
    put(&mut m, "com.tumblr", "Tumblr");
    put(&mut m, "com.twitch.android.app", "Twitch");
    put(&mut m, "tv.twitch.android.app", "Twitch");
    // MUSIC & AUDIO
    put(&mut m, "com.spotify.music", "Spotify");
    put(&mut m, "com.apple.android.music", "Apple Music");
    put(&mut m, "deezer.android.app", "Deezer");
    put(&mut m, "com.soundcloud.android", "SoundCloud");
    put(&mut m, "com.tidal.prod", "Tidal");
    put(&mut m, "com.amazon.mp3", "Amazon Music");
    put(&mut m, "com.google.android.apps.youtube.music", "YouTube Music");
    put(&mut m, "com.maxmpz.audioplayer", "Poweramp Music Player");
    put(&mut m, "com.maxmpz.audioplayer.unlock", "Poweramp Full Version Unlocker");
    put(&mut m, "com.musixmatch.android.lyrify", "Musixmatch");
    put(&mut m, "com.shazam.android", "Shazam");
    put(&mut m, "com.mixcloud.player", "Mixcloud");
    put(&mut m, "fm.player", "Player FM");
    put(&mut m, "tunein.player", "TuneIn Radio");
    // VIDEO & STREAMING
    put(&mut m, "com.netflix.mediaclient", "Netflix");
    put(&mut m, "com.amazon.avod.thirdpartyclient", "Amazon Prime Video");
    put(&mut m, "com.disney.disneyplus", "Disney+");
    put(&mut m, "com.hbo.hbonow", "HBO Max");
    put(&mut m, "com.hulu.plus", "Hulu");
    put(&mut m, "tv.pluto.android", "Pluto TV");
    put(&mut m, "com.tubitv", "Tubi");
    put(&mut m, "com.roku.remote", "Roku");
    put(&mut m, "com.mxtech.videoplayer.ad", "MX Player");
    put(&mut m, "com.mxtech.videoplayer.pro", "MX Player Pro");
    put(&mut m, "org.videolan.vlc", "VLC for Android");
    put(&mut m, "com.plexapp.android", "Plex");
    put(&mut m, "com.kodi", "Kodi");
    // PRODUCTIVITY & UTILITIES
    put(&mut m, "com.microsoft.office.word", "Microsoft Word");
    put(&mut m, "com.microsoft.office.excel", "Microsoft Excel");
    put(&mut m, "com.microsoft.office.powerpoint", "Microsoft PowerPoint");
    put(&mut m, "com.microsoft.office.officehubrow", "Microsoft 365 (Office)");
    put(&mut m, "com.microsoft.office.onenote", "Microsoft OneNote");
    put(&mut m, "com.microsoft.skydrive", "Microsoft OneDrive");
    put(&mut m, "com.microsoft.outlook", "Microsoft Outlook");
    put(&mut m, "com.adobe.reader", "Adobe Acrobat Reader");
    put(&mut m, "com.adobe.scan.android", "Adobe Scan");
    put(&mut m, "com.adobe.lrmobile", "Adobe Lightroom");
    put(&mut m, "com.adobe.psmobile", "Adobe Photoshop Express");
    put(&mut m, "com.intsig.camscanner", "CamScanner");
    put(&mut m, "com.evernote", "Evernote");
    put(&mut m, "com.dropbox.android", "Dropbox");
    put(&mut m, "com.box.android", "Box");
    put(&mut m, "com.slack", "Slack");
    put(&mut m, "com.trello", "Trello");
    put(&mut m, "com.asana.app", "Asana");
    put(&mut m, "com.todoist", "Todoist");
    put(&mut m, "com.ticktick.task", "TickTick");
    put(&mut m, "com.anydo", "Any.do");
    put(&mut m, "com.notion.android", "Notion");
    put(&mut m, "com.teamviewer.teamviewer.market.mobile", "TeamViewer");
    put(&mut m, "com.anydesk.anydeskandroid", "AnyDesk");
    put(&mut m, "com.lastpass.lpandroid", "LastPass");
    put(&mut m, "com.dashlane", "Dashlane");
    put(&mut m, "com.agilebits.onepassword", "1Password");
    put(&mut m, "bitwarden.mobile", "Bitwarden");
    put(&mut m, "com.authy.authy", "Authy");
    put(&mut m, "com.google.android.apps.authenticator2", "Google Authenticator");
    put(&mut m, "com.azure.authenticator", "Microsoft Authenticator");
    // BROWSERS
    put(&mut m, "com.android.chrome", "Google Chrome");
    put(&mut m, "org.mozilla.firefox", "Mozilla Firefox");
    put(&mut m, "com.opera.browser", "Opera Browser");
    put(&mut m, "com.opera.mini.native", "Opera Mini");
    put(&mut m, "com.microsoft.emmx", "Microsoft Edge");
    put(&mut m, "com.brave.browser", "Brave Browser");
    put(&mut m, "com.duckduckgo.mobile.android", "DuckDuckGo");
    put(&mut m, "com.samsung.android.app.sbrowser", "Samsung Internet");
    put(&mut m, "com.yandex.browser", "Yandex Browser");
    put(&mut m, "com.uc.browser.en", "UC Browser");
    put(&mut m, "org.torproject.torbrowser", "Tor Browser");
    // SHOPPING & E-COMMERCE
    put(&mut m, "com.amazon.mShop.android.shopping", "Amazon Shopping");
    put(&mut m, "com.ebay.mobile", "eBay");
    put(&mut m, "com.alibaba.aliexpresshd", "AliExpress");
    put(&mut m, "com.walmart.android", "Walmart");
    put(&mut m, "com.target.ui", "Target");
    put(&mut m, "com.etsy.android", "Etsy");
    put(&mut m, "com.contextlogic.wish", "Wish");
    put(&mut m, "com.zzkko", "Shein");
    put(&mut m, "com.nike.omega", "Nike");
    put(&mut m, "com.adidas.app", "adidas");
    put(&mut m, "com.zara.android", "Zara");
    put(&mut m, "com.hm.goe", "H&M");
    // TRAVEL & TRANSPORT
    put(&mut m, "com.ubercab", "Uber");
    put(&mut m, "me.lyft.android", "Lyft");
    put(&mut m, "com.grabtaxi.passenger", "Grab");
    put(&mut m, "com.olacabs.customer", "Ola");
    put(&mut m, "com.booking", "Booking.com");
    put(&mut m, "com.airbnb.android", "Airbnb");
    put(&mut m, "com.tripadvisor.tripadvisor", "Tripadvisor");
    put(&mut m, "com.expedia.bookings", "Expedia");
    put(&mut m, "com.trivago", "Trivago");
    put(&mut m, "com.agoda.mobile.consumer", "Agoda");
    put(&mut m, "com.skyscanner.android.main", "Skyscanner");
    put(&mut m, "com.waze", "Waze");
    put(&mut m, "com.here.app.maps", "HERE WeGo");
    // GAMES (POPULAR)
    put(&mut m, "com.mojang.minecraftpe", "Minecraft");
    put(&mut m, "com.roblox.client", "Roblox");
    put(&mut m, "com.nianticlabs.pokemongo", "Pokémon GO");
    put(&mut m, "com.supercell.clashofclans", "Clash of Clans");
    put(&mut m, "com.supercell.clashroyale", "Clash Royale");
    put(&mut m, "com.supercell.brawlstars", "Brawl Stars");
    put(&mut m, "com.king.candycrushsaga", "Candy Crush Saga");
    put(&mut m, "com.king.candycrushsodasaga", "Candy Crush Soda Saga");
    put(&mut m, "com.activision.callofduty.shooter", "Call of Duty: Mobile");
    put(&mut m, "com.pubg.kmobile", "PUBG Mobile");
    put(&mut m, "com.dts.freefireth", "Free Fire");
    put(&mut m, "com.epicgames.fortnite", "Fortnite");
    put(&mut m, "com.ea.gp.fifamobile", "EA SPORTS FC Mobile");
    put(&mut m, "com.firsttouchgames.dls3", "Dream League Soccer");
    put(&mut m, "com.konami.pesam", "eFootball Mobile");
    put(&mut m, "com.kiloo.subwaysurf", "Subway Surfers");
    put(&mut m, "com.imangi.templerun2", "Temple Run 2");
    put(&mut m, "com.plarium.raidlegends", "Raid: Shadow Legends");
    put(&mut m, "com.lilithgame.roc.gp", "Rise of Kingdoms");
    put(&mut m, "com.moonactive.coinmaster", "Coin Master");
    put(&mut m, "com.playrix.homescapes", "Homescapes");
    put(&mut m, "com.playrix.gardenscapes", "Gardenscapes");
    put(&mut m, "com.playrix.township", "Township");
    put(&mut m, "com.peakgames.toonblast", "Toon Blast");
    put(&mut m, "com.rovio.angrybirds", "Angry Birds Classic");
    put(&mut m, "com.rovio.baba", "Angry Birds 2");
    put(&mut m, "com.outfit7.mytalkingtomfree", "My Talking Tom");
    put(&mut m, "com.gameloft.android.ANMP.GloftA8HM", "Asphalt 8");
    put(&mut m, "com.gameloft.android.ANMP.GloftA9HM", "Asphalt 9");
    put(&mut m, "com.miHoYo.GenshinImpact", "Genshin Impact");
    put(&mut m, "com.netease.lztgglobal", "Rules of Survival");
    put(&mut m, "com.igggames.lordsmobile", "Lords Mobile");
    put(&mut m, "com.mobile.legends", "Mobile Legends: Bang Bang");
    put(&mut m, "com.riotgames.league.wildrift", "League of Legends: Wild Rift");
    put(&mut m, "com.riotgames.legendsofruneterra", "Legends of Runeterra");
    put(&mut m, "com.riotgames.league.teamfighttactics", "Teamfight Tactics");
    put(&mut m, "com.blizzard.wtcg.hearthstone", "Hearthstone");
    // FINANCE & BANKING (Global)
    put(&mut m, "com.paypal.android.p2pmobile", "PayPal");
    put(&mut m, "com.squareup.cash", "Cash App");
    put(&mut m, "com.venmo", "Venmo");
    put(&mut m, "net.one97.paytm", "Paytm");
    put(&mut m, "com.google.android.apps.walletnfcrel", "Google Wallet");
    put(&mut m, "com.revolut.revolut", "Revolut");
    put(&mut m, "de.n26.android", "N26");
    put(&mut m, "com.wise.mpay", "Wise");
    put(&mut m, "com.coinbase.android", "Coinbase");
    put(&mut m, "com.binance.dev", "Binance");
    // TURKISH APPS (Local Popularity)
    put(&mut m, "com.sahibinden", "sahibinden.com");
    put(&mut m, "com.getir", "Getir");
    put(&mut m, "com.yemeksepeti.android", "Yemeksepeti");
    put(&mut m, "com.trendyol.mobile", "Trendyol");
    put(&mut m, "com.gitti.gidiyor", "GittiGidiyor");
    put(&mut m, "com.n11", "n11.com");
    put(&mut m, "com.amazon.mShop.android.shopping", "Amazon Türkiye");
    put(&mut m, "com.mydm.android", "Hepsiburada");
    put(&mut m, "com.akakce.akakce", "Akakçe");
    put(&mut m, "com.cimri", "Cimri");
    put(&mut m, "com.dolap.android", "Dolap");
    put(&mut m, "com.letgo.android", "letgo");
    put(&mut m, "com.pozitron.hepsiburada", "Hepsiburada");
    put(&mut m, "tr.gov.turkiye.edevlet.kapisi", "e-Devlet");
    put(&mut m, "tr.gov.saglik.enabiz", "e-Nabız");
    put(&mut m, "tr.gov.saglik.hayatevesigar", "Hayat Eve Sığar");
    put(&mut m, "com.mhrs.vatandas", "MHRS");
    put(&mut m, "com.turkcell.online", "Turkcell");
    put(&mut m, "com.vodafone.selfservis", "Vodafone Yanımda");
    put(&mut m, "com.avea.customer.service", "Türk Telekom");
    put(&mut m, "com.ykb.android", "Yapı Kredi Mobile");
    put(&mut m, "com.garanti.cepsubesi", "Garanti BBVA Mobile");
    put(&mut m, "com.akbank.android.apps.akbank_direkt", "Akbank");
    put(&mut m, "com.softtech.isbankasi", "İşCep");
    put(&mut m, "com.finansbank.mobile.cepsube", "QNB Finansbank");
    put(&mut m, "com.ziraat.ziraatmobil", "Ziraat Mobile");
    put(&mut m, "com.vakifbank.mobile", "VakıfBank");
    put(&mut m, "com.halkbank.android", "Halkbank");
    put(&mut m, "com.denizbank.mobildeniz", "MobilDeniz");
    put(&mut m, "com.teb", "CEPTETEB");
    put(&mut m, "com.papara.papara", "Papara");
    put(&mut m, "com.ininal.wallet", "ininal");
    put(&mut m, "com.tosla.app", "Tosla");
    put(&mut m, "com.turkcell.bip", "BiP");
    put(&mut m, "com.dsmgroup.trendyol.market", "Trendyol Hızlı Market");
    put(&mut m, "com.dsmgroup.trendyol.yemek", "Trendyol Yemek");
    // UTILITIES (Advanced)
    put(&mut m, "eu.thedarken.sdm", "SD Maid");
    put(&mut m, "com.google.android.diskusage", "DiskUsage");
    put(&mut m, "com.rascarlo.granular.immersive.mode", "Granular Immersive Mode");
    put(&mut m, "com.draco.ladb", "LADB — Local ADB Shell");
    put(&mut m, "com.termux", "Termux");
    put(&mut m, "jackpal.androidterm", "Terminal Emulator");
    put(&mut m, "stericson.busybox", "BusyBox");
    put(&mut m, "com.topjohnwu.magisk", "Magisk");
    put(&mut m, "de.robv.android.xposed.installer", "Xposed Installer");
    put(&mut m, "org.lsposed.manager", "LSPosed");
    m
}

} // verus!
